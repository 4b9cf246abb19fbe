use vstd::prelude::*;
use vstd::arithmetic::div_mod::{lemma_add_mod_noop, lemma_mod_add_multiples_vanish, lemma_small_mod};

use crate::state::{AppError, AppState, CourseInfo, session_target, session_target_spec};
use crate::text::str_equal;

verus! {

/// What one reply of the enrollment endpoint means for its course.
#[derive(Debug, Clone, Copy, PartialEq, Eq)]
pub struct EnrollDecision {
    /// The text written into the course's status line.
    pub label: &'static str,
    /// The course reached a final state and is not requested again.
    pub stop_self: bool,
    /// The error ends the whole run (the session is no longer logged in).
    pub fatal: bool,
}

/// Label, final-state flag and fatal flag for a reply `(code, msg)`.
pub open spec fn classify_spec(code: i64, msg: Seq<char>, try_if_capacity_full: bool) -> (Seq<char>, bool, bool) {
    if code == 200 {
        ("选课成功"@, true, false)
    } else if code == 500 && msg == "该课程已在选课结果中"@ {
        ("已选"@, true, false)
    } else if code == 500 && msg == "本轮次选课暂未开始"@ {
        ("未开始"@, false, false)
    } else if code == 500 && msg == "课容量已满"@ {
        if !try_if_capacity_full {
            ("已满"@, true, false)
        } else {
            ("等待中"@, false, false)
        }
    } else if code == 500 && msg == "参数校验不通过"@ {
        ("参数错误"@, false, false)
    } else if code == 401 {
        ("未登录"@, true, true)
    } else {
        ("失败"@, false, false)
    }
}

impl EnrollDecision {
    /// The decision as plain values.
    pub open spec fn as_spec(self) -> (Seq<char>, bool, bool) {
        (self.label@, self.stop_self, self.fatal)
    }
}

/// Classifies one reply of the enrollment endpoint.
pub fn classify_enroll(code: i64, msg: &str, try_if_capacity_full: bool) -> (d: EnrollDecision)
    ensures
        d.as_spec() == classify_spec(code, msg@, try_if_capacity_full),
{
    if code == 200 {
        EnrollDecision { label: "选课成功", stop_self: true, fatal: false }
    } else if code == 500 && str_equal(msg, "该课程已在选课结果中") {
        EnrollDecision { label: "已选", stop_self: true, fatal: false }
    } else if code == 500 && str_equal(msg, "本轮次选课暂未开始") {
        EnrollDecision { label: "未开始", stop_self: false, fatal: false }
    } else if code == 500 && str_equal(msg, "课容量已满") {
        if !try_if_capacity_full {
            EnrollDecision { label: "已满", stop_self: true, fatal: false }
        } else {
            EnrollDecision { label: "等待中", stop_self: false, fatal: false }
        }
    } else if code == 500 && str_equal(msg, "参数校验不通过") {
        EnrollDecision { label: "参数错误", stop_self: false, fatal: false }
    } else if code == 401 {
        EnrollDecision { label: "未登录", stop_self: true, fatal: true }
    } else {
        EnrollDecision { label: "失败", stop_self: false, fatal: false }
    }
}

/// The `off`-th position of the ring of `n` positions that starts at `start`.
pub open spec fn ring_index(start: int, off: int, n: int) -> int {
    (start + off) % n
}

/// The first position of the ring that starts at `start` whose flag in
/// `done` is unset, looking from the `off`-th step on.
pub open spec fn pending_from(start: int, done: Seq<bool>, off: int) -> Option<int>
    decreases done.len() - off,
{
    if off < 0 || off >= done.len() {
        None
    } else if !done[ring_index(start, off, done.len() as int)] {
        Some(ring_index(start, off, done.len() as int))
    } else {
        pending_from(start, done, off + 1)
    }
}

/// The ring position reached from `start` after `off` steps, computed
/// without overflow.
proof fn lemma_ring_step(start: int, off: int, n: int)
    requires
        0 <= start,
        0 <= off < n,
    ensures
        start % n + off < n ==> ring_index(start, off, n) == start % n + off,
        start % n + off >= n ==> ring_index(start, off, n) == start % n + off - n,
        0 <= start % n < n,
{
    lemma_add_mod_noop(start, off, n);
    lemma_small_mod(off as nat, n as nat);
    let x = start % n + off;
    assert(0 <= start % n < n) by {
        vstd::arithmetic::div_mod::lemma_mod_pos_bound(start, n);
    }
    if x < n {
        lemma_small_mod(x as nat, n as nat);
    } else {
        lemma_small_mod((x - n) as nat, n as nat);
        lemma_mod_add_multiples_vanish(x - n, n);
    }
}

/// In `done`, the index of the next unfinished course, going round the ring
/// from `start` (which may exceed the length); `None` when all are done.
pub fn next_pending(start: usize, done: &[bool]) -> (r: Option<usize>)
    ensures
        r matches Some(i) ==> pending_from(start as int, done@, 0) == Some(i as int),
        r is None ==> pending_from(start as int, done@, 0) is None,
        r matches Some(i) ==> i < done@.len() && !done@[i as int],
        r is None ==> forall|i: int| 0 <= i < done@.len() ==> done@[i],
{
    proof {
        lemma_next_pending_sound(start, done@);
    }
    let n = done.len();
    if n == 0 {
        return None;
    }
    let base = start % n;
    let mut off: usize = 0;
    while off < n
        invariant
            n == done@.len(),
            n > 0,
            base == start % n,
            off <= n,
            pending_from(start as int, done@, 0) == pending_from(start as int, done@, off as int),
        decreases n - off,
    {
        proof {
            lemma_ring_step(start as int, off as int, n as int);
        }
        let i = if off < n - base { base + off } else { off - (n - base) };
        if !done[i] {
            return Some(i);
        }
        off = off + 1;
    }
    None
}

/// What came back from one enrollment request.
#[derive(Debug, Clone)]
pub enum SelectReply {
    /// The server answered with `code` and `msg` (0 and empty where the reply
    /// lacks them).
    Answered { code: i64, msg: String },
    /// The request failed before any answer.
    RequestFailed,
}

/// The decision for a reply: classified when answered, else a retry under
/// the label "请求错误".
pub open spec fn reply_decision_spec(reply: SelectReply, try_if_capacity_full: bool) -> (Seq<char>, bool, bool) {
    match reply {
        SelectReply::Answered { code, msg } => classify_spec(code, msg@, try_if_capacity_full),
        SelectReply::RequestFailed => ("请求错误"@, false, false),
    }
}

/// Decides what a reply means for its course.
pub fn reply_decision(reply: &SelectReply, try_if_capacity_full: bool) -> (d: EnrollDecision)
    ensures
        d.as_spec() == reply_decision_spec(*reply, try_if_capacity_full),
{
    match reply {
        SelectReply::Answered { code, msg } => classify_enroll(*code, msg.as_str(), try_if_capacity_full),
        SelectReply::RequestFailed => EnrollDecision { label: "请求错误", stop_self: false, fatal: false },
    }
}

/// Only a fatal reply (the session is gone) ends the run, and a fatal reply
/// is also final for its course.
pub proof fn lemma_fatal_is_final(code: i64, msg: Seq<char>, try_if_capacity_full: bool)
    ensures
        classify_spec(code, msg, try_if_capacity_full).2 ==> classify_spec(code, msg, try_if_capacity_full).1,
        classify_spec(code, msg, try_if_capacity_full).2 <==> code == 401,
{
}

/// A full course is given up only when the user asked not to wait for a
/// free place; otherwise it is polled again.
pub proof fn lemma_full_course_follows_choice(try_if_capacity_full: bool)
    ensures
        classify_spec(500, "课容量已满"@, try_if_capacity_full).1 == !try_if_capacity_full,
{
    assert("课容量已满"@ != "该课程已在选课结果中"@) by {
        reveal_strlit("课容量已满");
        reveal_strlit("该课程已在选课结果中");
        assert("课容量已满"@[0] == '课');
        assert("该课程已在选课结果中"@[0] == '该');
    }
    assert("课容量已满"@ != "本轮次选课暂未开始"@) by {
        reveal_strlit("课容量已满");
        reveal_strlit("本轮次选课暂未开始");
        assert("课容量已满"@[0] == '课');
        assert("本轮次选课暂未开始"@[0] == '本');
    }
}

/// Waiting for a free place matters only for a full course: for every other
/// reply, the decision is the same whichever way the user chose.
pub proof fn lemma_capacity_choice_only_matters_for_full(code: i64, msg: Seq<char>)
    ensures
        !(code == 500 && msg == "课容量已满"@) ==> classify_spec(code, msg, true) == classify_spec(code, msg, false),
{
}

/// A round that has not opened yet is polled again: the reply is neither
/// final nor fatal, and reads "未开始", whichever way the user chose.
pub proof fn lemma_not_started_keeps_polling(try_if_capacity_full: bool)
    ensures
        classify_spec(500, "本轮次选课暂未开始"@, try_if_capacity_full) == ("未开始"@, false, false),
{
    assert("本轮次选课暂未开始"@ != "该课程已在选课结果中"@) by {
        reveal_strlit("本轮次选课暂未开始");
        reveal_strlit("该课程已在选课结果中");
        assert("本轮次选课暂未开始"@[0] == '本');
        assert("该课程已在选课结果中"@[0] == '该');
    }
}

/// A reply is final for its course exactly when the course was enrolled
/// (200), is already enrolled, is full and the user does not wait, or the
/// session is gone (401).
pub proof fn lemma_final_replies(code: i64, msg: Seq<char>, try_if_capacity_full: bool)
    ensures
        classify_spec(code, msg, try_if_capacity_full).1 <==> (code == 200 || (code == 500 && msg
            == "该课程已在选课结果中"@) || (code == 500 && msg == "课容量已满"@ && !try_if_capacity_full) || code
            == 401),
{
    lemma_full_course_follows_choice(try_if_capacity_full);
    lemma_not_started_keeps_polling(try_if_capacity_full);
}

/// The search of the ring from any step on finds only an unfinished course,
/// and finds nothing only when every course it passes is done.
proof fn lemma_pending_from_sound(start: int, done: Seq<bool>, off: int)
    requires
        0 <= off <= done.len(),
        done.len() > 0,
        0 <= start,
    ensures
        pending_from(start, done, off) matches Some(i) ==> 0 <= i < done.len() && !done[i],
        pending_from(start, done, off) is None ==> forall|o: int| off <= o < done.len() ==> done[#[trigger] ring_index(start, o, done.len() as int)],
    decreases done.len() - off,
{
    if off < done.len() {
        lemma_ring_step(start, off, done.len() as int);
        lemma_pending_from_sound(start, done, off + 1);
    }
}

/// `next_pending` never hands out a finished course, and reports none only
/// when every course is finished.
pub proof fn lemma_next_pending_sound(start: usize, done: Seq<bool>)
    ensures
        pending_from(start as int, done, 0) matches Some(i) ==> 0 <= i < done.len() && !done[i],
        pending_from(start as int, done, 0) is None ==> forall|i: int| 0 <= i < done.len() ==> done[i],
{
    if done.len() > 0 {
        lemma_pending_from_sound(start as int, done, 0);
        if pending_from(start as int, done, 0) is None {
            let n = done.len() as int;
            assert forall|i: int| 0 <= i < done.len() implies done[i] by {
                let b = start as int % n;
                lemma_ring_step(start as int, 0, n);
                let o = if i >= b { i - b } else { i + n - b };
                lemma_ring_step(start as int, o, n);
                assert(ring_index(start as int, o, n) == i);
            }
        }
    }
}

/// How many workers poll the favourite courses concurrently.
pub const ENROLL_WORKERS: usize = 12;

/// A status line: the course name in brackets, then the status.
pub open spec fn status_line_spec(name: Seq<char>, label: Seq<char>) -> Seq<char> {
    "["@ + name + "]"@ + label
}

/// Builds the status line "[name]label".
pub fn status_line(name: &str, label: &str) -> (r: String)
    ensures
        r@ == status_line_spec(name@, label@),
{
    let mut line = "[".to_owned();
    line.append(name);
    line.append("]");
    line.append(label);
    line
}

/// The run number after `e`, wrapping round.
pub open spec fn next_epoch(e: usize) -> usize {
    if e == usize::MAX {
        0
    } else {
        (e + 1) as usize
    }
}

/// The shared bookkeeping of one enrollment run.
#[derive(Debug, Clone)]
pub struct EnrollRun {
    /// The session token the run enrolls with.
    pub token: String,
    /// The batch the run enrolls in.
    pub batch_id: String,
    /// The run's number; workers of another number stop.
    pub epoch: usize,
    /// One flag per course: the course reached a final state.
    pub done: Vec<bool>,
    /// Where the next worker starts looking for an unfinished course.
    pub cursor: usize,
    /// Workers of the run that have not exited yet.
    pub active: usize,
}

/// The status lines at the start of a run: every course waiting.
pub open spec fn waiting_lines(courses: Seq<CourseInfo>) -> Seq<Seq<char>> {
    Seq::new(courses.len(), |i: int| status_line_spec(courses[i].KCM@, "等待中"@))
}

/// The fields that only the enrollment run changes are all that differ.
pub open spec fn same_session(a: AppState, b: AppState) -> bool {
    &&& a.token == b.token
    &&& a.batch_id == b.batch_id
    &&& a.batch_list == b.batch_list
    &&& a.selected_courses == b.selected_courses
    &&& a.favorite_courses == b.favorite_courses
}

/// `post` and `run` are what starting a run for `courses` from `pre`
/// gives, given the session's token `token` and batch `batch`.
pub open spec fn run_started(
    pre: AppState,
    courses: Seq<CourseInfo>,
    token: Seq<char>,
    batch: Seq<char>,
    post: AppState,
    run: EnrollRun,
) -> bool {
    &&& same_session(pre, post)
    &&& post.should_continue
    &&& post.enrollment_status.is_running
    &&& post.enrollment_status.total_requests == 0
    &&& post.enrollment_status.course_statuses.deep_view() == waiting_lines(courses)
    &&& post.run_epoch == next_epoch(pre.run_epoch)
    &&& run.epoch == post.run_epoch
    &&& run.token@ == token
    &&& run.batch_id@ == batch
    &&& run.done@ == Seq::new(courses.len(), |i: int| false)
    &&& run.cursor == 0
    &&& run.active == ENROLL_WORKERS
}

/// Starts an enrollment run for `courses`: nothing to do for no course; an
/// error without a token or a batch; else the run's bookkeeping, with the
/// state set running, its counter cleared, every course waiting and the run
/// number advanced.
pub fn begin_enrollment(state: &mut AppState, courses: &Vec<CourseInfo>) -> (r: Result<Option<EnrollRun>, AppError>)
    ensures
        courses@.len() == 0 ==> (r matches Ok(None) && *final(state) == *old(state)),
        courses@.len() > 0 ==> match session_target_spec(*old(state)) {
            Err(e) => (r matches Err(x) && x@ == e && *final(state) == *old(state)),
            Ok((t, b)) => (r matches Ok(Some(run)) && run_started(*old(state), courses@, t, b, *final(state), run)),
        },
{
    if courses.len() == 0 {
        return Ok(None);
    }
    let target = session_target(state);
    let (token, batch_id) = match target {
        Ok(tb) => tb,
        Err(e) => {
            return Err(e);
        },
    };
    let mut lines: Vec<String> = Vec::new();
    let mut done: Vec<bool> = Vec::new();
    let mut i: usize = 0;
    while i < courses.len()
        invariant
            i <= courses.len(),
            lines.deep_view() == waiting_lines(courses@).take(i as int),
            done@ == Seq::new(i as nat, |k: int| false),
        decreases courses.len() - i,
    {
        let ghost before = lines.deep_view();
        let line = status_line(courses[i].KCM.as_str(), "等待中");
        let ghost line_view = line@;
        lines.push(line);
        assert(lines.deep_view() =~= before.push(line_view));
        done.push(false);
        assert(lines.deep_view() =~= waiting_lines(courses@).take(i + 1));
        assert(done@ =~= Seq::new((i + 1) as nat, |k: int| false));
        i = i + 1;
    }
    assert(lines.deep_view() =~= waiting_lines(courses@));
    state.should_continue = true;
    state.enrollment_status.is_running = true;
    state.enrollment_status.total_requests = 0;
    state.enrollment_status.course_statuses = lines;
    let epoch = if state.run_epoch == usize::MAX { 0 } else { state.run_epoch + 1 };
    state.run_epoch = epoch;
    Ok(Some(EnrollRun { token, batch_id, epoch, done, cursor: 0, active: ENROLL_WORKERS }))
}

/// A worker of run `epoch` keeps polling: the user has not stopped and no
/// later run has started.
pub open spec fn worker_continues_spec(state: AppState, epoch: usize) -> bool {
    state.should_continue && state.run_epoch == epoch
}

/// Whether a worker of run `epoch` keeps polling.
pub fn worker_continues(state: &AppState, epoch: usize) -> (r: bool)
    ensures
        r == worker_continues_spec(*state, epoch),
{
    state.should_continue && state.run_epoch == epoch
}

/// The cursor after one step, wrapping round.
pub open spec fn next_cursor(c: usize) -> usize {
    if c == usize::MAX {
        0
    } else {
        (c + 1) as usize
    }
}

/// A worker takes its next course: it advances the shared cursor and looks
/// for an unfinished course from the cursor's old value on; `None` when all
/// courses are done.
pub fn claim_course(run: &mut EnrollRun) -> (r: Option<usize>)
    ensures
        final(run).done == old(run).done,
        final(run).epoch == old(run).epoch,
        final(run).active == old(run).active,
        final(run).token == old(run).token,
        final(run).batch_id == old(run).batch_id,
        final(run).cursor == next_cursor(old(run).cursor),
        r matches Some(i) ==> pending_from(old(run).cursor as int, old(run).done@, 0) == Some(i as int),
        r is None ==> pending_from(old(run).cursor as int, old(run).done@, 0) is None,
        r matches Some(i) ==> i < final(run).done@.len() && !final(run).done@[i as int],
        r is None ==> forall|i: int| 0 <= i < final(run).done@.len() ==> final(run).done@[i],
{
    let start = run.cursor;
    run.cursor = if start == usize::MAX { 0 } else { start + 1 };
    next_pending(start, run.done.as_slice())
}

/// `post_run` and `r` are what a worker's next step gives: a worker of a run
/// that is stopped or replaced exits (`None`) and touches nothing; else it
/// claims a course as [`claim_course`] does, and exits when every course is
/// done.
pub open spec fn worker_stepped(pre_run: EnrollRun, state: AppState, post_run: EnrollRun, r: Option<usize>) -> bool {
    if !worker_continues_spec(state, pre_run.epoch) {
        r is None && post_run == pre_run
    } else {
        &&& post_run.done == pre_run.done
        &&& post_run.epoch == pre_run.epoch
        &&& post_run.active == pre_run.active
        &&& post_run.token == pre_run.token
        &&& post_run.batch_id == pre_run.batch_id
        &&& post_run.cursor == next_cursor(pre_run.cursor)
        &&& match r {
            Some(i) => i < pre_run.done@.len() && !pre_run.done@[i as int] && pending_from(
                pre_run.cursor as int,
                pre_run.done@,
                0,
            ) == Some(i as int),
            None => forall|i: int| 0 <= i < pre_run.done@.len() ==> pre_run.done@[i],
        }
    }
}

/// A worker's next step: the course to request, or `None` when the worker
/// exits.
pub fn worker_step(run: &mut EnrollRun, state: &AppState) -> (r: Option<usize>)
    ensures
        worker_stepped(*old(run), *state, *final(run), r),
{
    if !worker_continues(state, run.epoch) {
        return None;
    }
    claim_course(run)
}

/// The run is over for a worker of `run`: every course is done, or the user
/// stopped, or a later run started.
pub open spec fn run_over(run: EnrollRun, state: AppState) -> bool {
    ||| forall|i: int| 0 <= i < run.done@.len() ==> run.done@[i]
    ||| !state.should_continue
    ||| state.run_epoch != run.epoch
}

/// A worker keeps requesting only while its run is current, not stopped and
/// not finished: once every course is done, or the user stopped, or a later
/// run started, its next step is the exit.
pub proof fn lemma_worker_exits_when_run_over(pre_run: EnrollRun, state: AppState, post_run: EnrollRun, r: Option<usize>)
    requires
        worker_stepped(pre_run, state, post_run, r),
        run_over(pre_run, state),
    ensures
        r is None,
{
}

impl AppState {
    /// Counts one enrollment request, saturating at the largest count.
    pub fn count_request(&mut self)
        ensures
            final(self).enrollment_status.total_requests == if old(self).enrollment_status.total_requests
                == u64::MAX {
                u64::MAX
            } else {
                (old(self).enrollment_status.total_requests + 1) as u64
            },
            final(self).enrollment_status.is_running == old(self).enrollment_status.is_running,
            final(self).enrollment_status.course_statuses == old(self).enrollment_status.course_statuses,
            final(self).should_continue == old(self).should_continue,
            final(self).run_epoch == old(self).run_epoch,
            same_session(*old(self), *final(self)),
    {
        self.enrollment_status.total_requests = self.enrollment_status.total_requests.saturating_add(1);
    }
}

/// `post_run` and `post` are what recording the reply `d` for course `idx`
/// (named `name`) gives: for the current run, as [`reply_applied`] says; a
/// reply to a worker of an earlier run changes nothing, so that it cannot
/// disturb the run that replaced its own.
pub open spec fn reply_recorded(
    pre_run: EnrollRun,
    pre: AppState,
    idx: int,
    name: Seq<char>,
    d: (Seq<char>, bool, bool),
    post_run: EnrollRun,
    post: AppState,
) -> bool {
    if pre_run.epoch == pre.run_epoch {
        reply_applied(pre_run, pre, idx, name, d, post_run, post)
    } else {
        post_run == pre_run && post == pre
    }
}

/// A reply recorded for the current run: a final reply marks the course
/// done; the course's line is rewritten unless the course was already done
/// and this reply is not final; a fatal reply stops the run.
pub open spec fn reply_applied(
    pre_run: EnrollRun,
    pre: AppState,
    idx: int,
    name: Seq<char>,
    d: (Seq<char>, bool, bool),
    post_run: EnrollRun,
    post: AppState,
) -> bool {
    let lines = pre.enrollment_status.course_statuses.deep_view();
    &&& post_run.done@ == (if d.1 {
        pre_run.done@.update(idx, true)
    } else {
        pre_run.done@
    })
    &&& post.enrollment_status.course_statuses.deep_view() == (if (d.1 || !pre_run.done@[idx]) && idx
        < lines.len() {
        lines.update(idx, status_line_spec(name, d.0))
    } else {
        lines
    })
    &&& post.should_continue == (pre.should_continue && !d.2)
    &&& post.enrollment_status.is_running == pre.enrollment_status.is_running
    &&& post.enrollment_status.total_requests == pre.enrollment_status.total_requests
    &&& post.run_epoch == pre.run_epoch
    &&& same_session(pre, post)
    &&& post_run.epoch == pre_run.epoch
    &&& post_run.cursor == pre_run.cursor
    &&& post_run.active == pre_run.active
    &&& post_run.token == pre_run.token
    &&& post_run.batch_id == pre_run.batch_id
}

/// Records what the server answered for course `idx`, named `name`.
pub fn record_reply(run: &mut EnrollRun, state: &mut AppState, idx: usize, name: &str, d: &EnrollDecision)
    requires
        idx < old(run).done@.len(),
    ensures
        reply_recorded(*old(run), *old(state), idx as int, name@, d.as_spec(), *final(run), *final(state)),
{
    if run.epoch != state.run_epoch {
        return;
    }
    let ghost lines = state.enrollment_status.course_statuses.deep_view();
    let was_done = run.done[idx];
    if d.stop_self {
        run.done.set(idx, true);
    }
    if (d.stop_self || !was_done) && idx < state.enrollment_status.course_statuses.len() {
        let line = status_line(name, d.label);
        state.enrollment_status.course_statuses.set(idx, line);
        assert(state.enrollment_status.course_statuses.deep_view() =~= lines.update(
            idx as int,
            status_line_spec(name@, d.label@),
        ));
    }
    if d.fatal {
        state.should_continue = false;
    }
}

/// `post_run` and `post` are what a worker's exit gives: one fewer active
/// worker; the last one of the current run marks the run stopped.
pub open spec fn worker_exited(pre_run: EnrollRun, pre: AppState, post_run: EnrollRun, post: AppState) -> bool {
    let last_of_current = pre_run.active == 1 && pre.run_epoch == pre_run.epoch;
    &&& post_run.active == pre_run.active - 1
    &&& post_run.done == pre_run.done
    &&& post_run.epoch == pre_run.epoch
    &&& post_run.cursor == pre_run.cursor
    &&& post.enrollment_status.is_running == (pre.enrollment_status.is_running && !last_of_current)
    &&& post.should_continue == (pre.should_continue && !last_of_current)
    &&& post.enrollment_status.total_requests == pre.enrollment_status.total_requests
    &&& post.enrollment_status.course_statuses == pre.enrollment_status.course_statuses
    &&& post.run_epoch == pre.run_epoch
    &&& same_session(pre, post)
}

/// A worker leaves the run.
pub fn finish_worker(run: &mut EnrollRun, state: &mut AppState)
    requires
        old(run).active > 0,
    ensures
        worker_exited(*old(run), *old(state), *final(run), *final(state)),
{
    let previous = run.active;
    run.active = previous - 1;
    if previous == 1 && state.run_epoch == run.epoch {
        state.enrollment_status.is_running = false;
        state.should_continue = false;
    }
}

/// Stops the enrollment: workers stop polling and the run shows stopped.
pub fn stop_enrollment(state: &mut AppState)
    ensures
        !final(state).should_continue,
        !final(state).enrollment_status.is_running,
        final(state).enrollment_status.total_requests == old(state).enrollment_status.total_requests,
        final(state).enrollment_status.course_statuses == old(state).enrollment_status.course_statuses,
        final(state).run_epoch == old(state).run_epoch,
        same_session(*old(state), *final(state)),
{
    state.should_continue = false;
    state.enrollment_status.is_running = false;
}

/// A final reply that is not fatal finishes only its own course: the other
/// courses keep their flags and the run goes on.
pub proof fn lemma_success_stops_only_its_course(
    pre_run: EnrollRun,
    pre: AppState,
    idx: int,
    name: Seq<char>,
    d: (Seq<char>, bool, bool),
    post_run: EnrollRun,
    post: AppState,
)
    requires
        0 <= idx < pre_run.done@.len(),
        pre_run.epoch == pre.run_epoch,
        reply_recorded(pre_run, pre, idx, name, d, post_run, post),
        d.1,
        !d.2,
    ensures
        post_run.done@[idx],
        post_run.done@.len() == pre_run.done@.len(),
        forall|j: int| 0 <= j < pre_run.done@.len() && j != idx ==> post_run.done@[j] == pre_run.done@[j],
        post.should_continue == pre.should_continue,
        forall|e: usize| worker_continues_spec(post, e) == worker_continues_spec(pre, e),
{
}

/// A fatal reply to a worker of the current run stops every worker, of this
/// run and of any other.
pub proof fn lemma_fatal_stops_all_workers(
    pre_run: EnrollRun,
    pre: AppState,
    idx: int,
    name: Seq<char>,
    d: (Seq<char>, bool, bool),
    post_run: EnrollRun,
    post: AppState,
)
    requires
        pre_run.epoch == pre.run_epoch,
        reply_recorded(pre_run, pre, idx, name, d, post_run, post),
        d.2,
    ensures
        forall|e: usize| !worker_continues_spec(post, e),
{
}

/// No reply that is not fatal ends the run: whether each worker keeps
/// polling is as before, and so is the run's running flag.
pub proof fn lemma_nonfatal_reply_keeps_run(
    pre_run: EnrollRun,
    pre: AppState,
    idx: int,
    name: Seq<char>,
    d: (Seq<char>, bool, bool),
    post_run: EnrollRun,
    post: AppState,
)
    requires
        reply_recorded(pre_run, pre, idx, name, d, post_run, post),
        !d.2,
    ensures
        post.should_continue == pre.should_continue,
        post.enrollment_status.is_running == pre.enrollment_status.is_running,
        forall|e: usize| worker_continues_spec(post, e) == worker_continues_spec(pre, e),
{
}

/// A worker of an earlier run, whose reply arrives after a new run started,
/// changes nothing: neither the new run's state nor its own bookkeeping.
pub proof fn lemma_stale_reply_changes_nothing(
    pre_run: EnrollRun,
    pre: AppState,
    idx: int,
    name: Seq<char>,
    d: (Seq<char>, bool, bool),
    post_run: EnrollRun,
    post: AppState,
)
    requires
        pre_run.epoch != pre.run_epoch,
        reply_recorded(pre_run, pre, idx, name, d, post_run, post),
    ensures
        post == pre,
        post_run == pre_run,
{
}

/// A reply to the current run shows on its course's line: for a course not
/// yet done, whether the reply is final or not, and for a done course when
/// the reply is final, the line becomes "[name]label"; every other line is
/// kept.
pub proof fn lemma_reply_shows_on_its_line(
    pre_run: EnrollRun,
    pre: AppState,
    idx: int,
    name: Seq<char>,
    d: (Seq<char>, bool, bool),
    post_run: EnrollRun,
    post: AppState,
)
    requires
        reply_recorded(pre_run, pre, idx, name, d, post_run, post),
        pre_run.epoch == pre.run_epoch,
        0 <= idx < pre_run.done@.len(),
        idx < pre.enrollment_status.course_statuses@.len(),
        !pre_run.done@[idx] || d.1,
    ensures
        post.enrollment_status.course_statuses@.len() == pre.enrollment_status.course_statuses@.len(),
        post.enrollment_status.course_statuses@[idx]@ == "["@ + name + "]"@ + d.0,
        forall|j: int| 0 <= j < pre.enrollment_status.course_statuses@.len() && j != idx
            ==> #[trigger] post.enrollment_status.course_statuses@[j]@ == pre.enrollment_status.course_statuses@[j]@,
{
    let pre_lines = pre.enrollment_status.course_statuses.deep_view();
    let post_lines = post.enrollment_status.course_statuses.deep_view();
    assert(post_lines.len() == post.enrollment_status.course_statuses@.len());
    assert(post_lines[idx] == post.enrollment_status.course_statuses@[idx]@);
    assert forall|j: int| 0 <= j < pre.enrollment_status.course_statuses@.len() && j != idx
        implies #[trigger] post.enrollment_status.course_statuses@[j]@ == pre.enrollment_status.course_statuses@[j]@ by {
        assert(post_lines[j] == post.enrollment_status.course_statuses@[j]@);
        assert(pre_lines[j] == pre.enrollment_status.course_statuses@[j]@);
    }
}

/// Once a course is done, a late reply that is not final for it leaves every
/// status line as it was.
pub proof fn lemma_final_status_kept(
    pre_run: EnrollRun,
    pre: AppState,
    idx: int,
    name: Seq<char>,
    d: (Seq<char>, bool, bool),
    post_run: EnrollRun,
    post: AppState,
)
    requires
        0 <= idx < pre_run.done@.len(),
        reply_recorded(pre_run, pre, idx, name, d, post_run, post),
        pre_run.done@[idx],
        !d.1,
    ensures
        post.enrollment_status.course_statuses.deep_view() == pre.enrollment_status.course_statuses.deep_view(),
        post_run.done@ == pre_run.done@,
{
}

/// Starting a run makes every worker of earlier runs stop: the run number
/// moves on.
pub proof fn lemma_new_run_retires_old_workers(
    pre: AppState,
    courses: Seq<CourseInfo>,
    token: Seq<char>,
    batch: Seq<char>,
    post: AppState,
    run: EnrollRun,
)
    requires
        run_started(pre, courses, token, batch, post, run),
    ensures
        !worker_continues_spec(post, pre.run_epoch),
        worker_continues_spec(post, run.epoch),
{
}

/// After the user stops, no worker of any run keeps polling.
pub proof fn lemma_stop_stops_all_workers(post: AppState)
    requires
        !post.should_continue,
    ensures
        forall|e: usize| !worker_continues_spec(post, e),
{
}

/// The last worker of the current run marks it stopped; a worker of an
/// earlier run leaves the current run's state untouched.
pub proof fn lemma_last_worker_closes_only_its_run(pre_run: EnrollRun, pre: AppState, post_run: EnrollRun, post: AppState)
    requires
        worker_exited(pre_run, pre, post_run, post),
    ensures
        pre_run.active == 1 && pre.run_epoch == pre_run.epoch ==> !post.enrollment_status.is_running
            && !post.should_continue,
        pre.run_epoch != pre_run.epoch ==> post.enrollment_status.is_running == pre.enrollment_status.is_running
            && post.should_continue == pre.should_continue,
{
}

/// Exits bring the count of active workers down by one each.
proof fn lemma_countdown(pre_runs: Seq<EnrollRun>, pres: Seq<AppState>, post_runs: Seq<EnrollRun>, posts: Seq<AppState>, n: int, i: int)
    requires
        0 <= i < n,
        pre_runs.len() == n && pres.len() == n && post_runs.len() == n && posts.len() == n,
        pre_runs[0].active == n,
        forall|k: int| 0 <= k < n ==> worker_exited(#[trigger] pre_runs[k], pres[k], post_runs[k], posts[k]),
        forall|k: int| 0 <= k < n - 1 ==> #[trigger] pre_runs[k + 1].active == post_runs[k].active,
    ensures
        pre_runs[i].active == n - i,
    decreases i,
{
    if i > 0 {
        lemma_countdown(pre_runs, pres, post_runs, posts, n, i - 1);
        assert(worker_exited(pre_runs[i - 1], pres[i - 1], post_runs[i - 1], posts[i - 1]));
        assert(pre_runs[(i - 1) + 1].active == post_runs[i - 1].active);
    }
}

/// When each of a run's workers has exited once, with nothing but exits
/// changing the count of active workers, and the run is still the current
/// one at the last exit, the run shows stopped and no worker keeps polling.
pub proof fn lemma_all_exits_close_run(
    pre_runs: Seq<EnrollRun>,
    pres: Seq<AppState>,
    post_runs: Seq<EnrollRun>,
    posts: Seq<AppState>,
    n: int,
)
    requires
        n > 0,
        pre_runs.len() == n && pres.len() == n && post_runs.len() == n && posts.len() == n,
        pre_runs[0].active == n,
        forall|k: int| 0 <= k < n ==> worker_exited(#[trigger] pre_runs[k], pres[k], post_runs[k], posts[k]),
        forall|k: int| 0 <= k < n - 1 ==> #[trigger] pre_runs[k + 1].active == post_runs[k].active,
        pres[n - 1].run_epoch == pre_runs[n - 1].epoch,
    ensures
        post_runs[n - 1].active == 0,
        !posts[n - 1].enrollment_status.is_running,
        forall|e: usize| !#[trigger] worker_continues_spec(posts[n - 1], e),
{
    lemma_countdown(pre_runs, pres, post_runs, posts, n, n - 1);
    assert(worker_exited(pre_runs[n - 1], pres[n - 1], post_runs[n - 1], posts[n - 1]));
}

/// Once a run is over, its workers wind it up: when each of its `n` workers
/// takes a step that finds the run over, every one of those steps is the
/// exit; and when the `n` exits that follow bring the count of active
/// workers down one by one, the run still current at the last of them, the
/// run shows stopped and no worker keeps polling.
pub proof fn lemma_finished_run_closes(
    step_runs: Seq<EnrollRun>,
    step_states: Seq<AppState>,
    stepped_runs: Seq<EnrollRun>,
    steps: Seq<Option<usize>>,
    pre_runs: Seq<EnrollRun>,
    pres: Seq<AppState>,
    post_runs: Seq<EnrollRun>,
    posts: Seq<AppState>,
    n: int,
)
    requires
        n > 0,
        step_runs.len() == n && step_states.len() == n && stepped_runs.len() == n && steps.len() == n,
        pre_runs.len() == n && pres.len() == n && post_runs.len() == n && posts.len() == n,
        forall|k: int| 0 <= k < n ==> worker_stepped(#[trigger] step_runs[k], step_states[k], stepped_runs[k], steps[k]),
        forall|k: int| 0 <= k < n ==> run_over(#[trigger] step_runs[k], step_states[k]),
        pre_runs[0].active == n,
        forall|k: int| 0 <= k < n ==> worker_exited(#[trigger] pre_runs[k], pres[k], post_runs[k], posts[k]),
        forall|k: int| 0 <= k < n - 1 ==> #[trigger] pre_runs[k + 1].active == post_runs[k].active,
        pres[n - 1].run_epoch == pre_runs[n - 1].epoch,
    ensures
        forall|k: int| 0 <= k < n ==> #[trigger] steps[k] is None,
        post_runs[n - 1].active == 0,
        !posts[n - 1].enrollment_status.is_running,
        forall|e: usize| !#[trigger] worker_continues_spec(posts[n - 1], e),
{
    assert forall|k: int| 0 <= k < n implies #[trigger] steps[k] is None by {
        lemma_worker_exits_when_run_over(step_runs[k], step_states[k], stepped_runs[k], steps[k]);
    }
    lemma_all_exits_close_run(pre_runs, pres, post_runs, posts, n);
}

} // verus!
