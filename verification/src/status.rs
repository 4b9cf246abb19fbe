use vstd::prelude::*;
use vstd::string::*;

use crate::text::{
    chars_of, find_char, first_index_of, is_white_space, lemma_first_index_from, seq_contains,
    skip_white_space, str_contains, trim_start_spec, white_space_end,
};

verus! {

/// The kind of the login screen's status line, derived from its text.
pub open spec fn status_kind_spec(m: Seq<char>) -> Seq<char> {
    if seq_contains(m, "成功"@) {
        "success"@
    } else if seq_contains(m, "失败"@) || seq_contains(m, "错误"@) {
        "error"@
    } else if seq_contains(m, "请输入"@) || seq_contains(m, "请重新"@) || seq_contains(m, "请登录"@) {
        "warning"@
    } else if seq_contains(m, "正在"@) || seq_contains(m, "设置批次"@) || seq_contains(m, "获取"@) {
        "loading"@
    } else {
        "idle"@
    }
}

/// A failure outranks the loading words: a line that reports a failure and
/// no success is an error, whatever else it says.
pub proof fn lemma_failure_outranks_loading(m: Seq<char>)
    requires
        seq_contains(m, "失败"@) || seq_contains(m, "错误"@),
        !seq_contains(m, "成功"@),
    ensures
        status_kind_spec(m) == "error"@,
{
}

/// A line that asks the user to act (to enter something, to log in, or to
/// do something again) and reports neither a success nor a failure is a
/// warning.
pub proof fn lemma_prompts_are_warnings(m: Seq<char>)
    requires
        seq_contains(m, "请输入"@) || seq_contains(m, "请重新"@) || seq_contains(m, "请登录"@),
        !seq_contains(m, "成功"@),
        !seq_contains(m, "失败"@),
        !seq_contains(m, "错误"@),
    ensures
        status_kind_spec(m) == "warning"@,
{
}

/// A line that reports a success is a success, whatever else it says.
pub proof fn lemma_success_outranks_all(m: Seq<char>)
    requires
        seq_contains(m, "成功"@),
    ensures
        status_kind_spec(m) == "success"@,
{
}

/// Infers the kind of a login status line from its text.
pub fn status_kind(msg: &str) -> (r: &'static str)
    ensures
        r@ == status_kind_spec(msg@),
{
    if str_contains(msg, "成功") {
        "success"
    } else if str_contains(msg, "失败") || str_contains(msg, "错误") {
        "error"
    } else if str_contains(msg, "请输入") || str_contains(msg, "请重新") || str_contains(msg, "请登录") {
        "warning"
    } else if str_contains(msg, "正在") || str_contains(msg, "设置批次") || str_contains(msg, "获取") {
        "loading"
    } else {
        "idle"
    }
}

/// The colour class of a course status line, derived from its text.
pub open spec fn log_kind_spec(s: Seq<char>) -> Seq<char> {
    if seq_contains(s, "成功"@) || seq_contains(s, "已选"@) {
        "success"@
    } else if seq_contains(s, "等待"@) || seq_contains(s, "未开始"@) {
        "wait"@
    } else if seq_contains(s, "错误"@) || seq_contains(s, "失败"@) || seq_contains(s, "已满"@)
        || seq_contains(s, "未登录"@) || seq_contains(s, "参数"@) {
        "error"@
    } else {
        "info"@
    }
}

/// Infers the colour class of a course status line from its text.
pub fn log_kind(s: &str) -> (r: &'static str)
    ensures
        r@ == log_kind_spec(s@),
{
    if str_contains(s, "成功") || str_contains(s, "已选") {
        "success"
    } else if str_contains(s, "等待") || str_contains(s, "未开始") {
        "wait"
    } else if str_contains(s, "错误") || str_contains(s, "失败") || str_contains(s, "已满")
        || str_contains(s, "未登录") || str_contains(s, "参数") {
        "error"
    } else {
        "info"
    }
}

/// The tag and the message of a "[course]status" line.
pub open spec fn split_tag_spec(s: Seq<char>) -> (Seq<char>, Seq<char>) {
    match first_index_of(s, ']') {
        Some(i) => (s.take(i + 1), trim_start_spec(s.skip(i + 1))),
        None => (Seq::empty(), s),
    }
}

/// Splits "[course]status" into the tag up to and including the first `]`,
/// and the rest without its leading white space.
pub fn split_tag(s: &str) -> (r: (String, String))
    ensures
        (r.0@, r.1@) == split_tag_spec(s@),
{
    let cs = chars_of(s);
    match find_char(&cs, ']') {
        Some(idx) => {
            proof {
                lemma_first_index_from(cs@, ']', 0);
            }
            let start = skip_white_space(&cs, idx + 1);
            let n = s.unicode_len();
            let tag = s.substring_char(0, idx + 1).to_owned();
            let msg = s.substring_char(start, n).to_owned();
            proof {
                let rest = s@.skip(idx + 1);
                assert forall|j: int| 0 <= j <= rest.len() implies
                    white_space_end(rest, j) + idx + 1 == white_space_end(s@, j + idx + 1) by {
                    lemma_white_space_end_shift(s@, idx as int + 1, j);
                }
                assert(msg@ =~= trim_start_spec(rest));
            }
            (tag, msg)
        },
        None => (String::new(), s.to_owned()),
    }
}

/// Skipping white space commutes with dropping a prefix.
proof fn lemma_white_space_end_shift(s: Seq<char>, d: int, j: int)
    requires
        0 <= d <= s.len(),
        0 <= j <= s.len() - d,
    ensures
        white_space_end(s.skip(d), j) + d == white_space_end(s, j + d),
    decreases s.len() - d - j,
{
    if j < s.len() - d && is_white_space(s[j + d]) {
        lemma_white_space_end_shift(s, d, j + 1);
    }
}

/// Skipping white space from `i` passes only white space and stops inside
/// the sequence.
proof fn lemma_white_space_end_bounds(t: Seq<char>, i: int)
    requires
        0 <= i <= t.len(),
    ensures
        i <= white_space_end(t, i) <= t.len(),
        forall|j: int| i <= j < white_space_end(t, i) ==> is_white_space(t[j]),
    decreases t.len() - i,
{
    if i < t.len() && is_white_space(t[i]) {
        lemma_white_space_end_bounds(t, i + 1);
    }
}

/// A status line is its tag, some white space and its message, in this
/// order; the tag ends at the line's first `]`. Without a `]` the tag is
/// empty and the message is the whole line.
pub proof fn lemma_split_tag_reassembles(s: Seq<char>)
    ensures
        ({
            let (tag, msg) = split_tag_spec(s);
            let gap = s.subrange(tag.len() as int, s.len() - msg.len());
            &&& tag.len() + msg.len() <= s.len()
            &&& s == tag + gap + msg
            &&& forall|j: int| 0 <= j < gap.len() ==> is_white_space(gap[j])
            &&& first_index_of(s, ']') is None ==> tag.len() == 0 && msg == s
            &&& first_index_of(s, ']') is Some ==> tag.len() > 0 && tag.last() == ']' && forall|j: int|
                0 <= j < tag.len() - 1 ==> tag[j] != ']'
        }),
{
    lemma_first_index_from(s, ']', 0);
    match first_index_of(s, ']') {
        Some(i) => {
            let rest = s.skip(i + 1);
            lemma_white_space_end_bounds(rest, 0);
            let k = white_space_end(rest, 0);
            let (tag, msg) = split_tag_spec(s);
            assert(tag =~= s.take(i + 1));
            assert(msg =~= rest.skip(k));
            let gap = s.subrange(tag.len() as int, s.len() - msg.len());
            assert(gap =~= rest.take(k));
            assert(s =~= tag + gap + msg);
        },
        None => {
            let (tag, msg) = split_tag_spec(s);
            assert(s =~= tag + s.subrange(0, 0) + msg);
        },
    }
}

} // verus!
