use vstd::prelude::*;

use crate::text::{eq_ignore_ascii_case_spec, seq_contains, str_contains, str_eq_ignore_ascii_case, str_equal};
use crate::form::{encode_form, form_urlencoded};
use crate::upstream::{get_upstream_url, get_upstream_url_spec, is_allowed_upstream, parsed_url_parts, upstream_allowed_spec};

verus! {

/// A header of the incoming request as the proxy reads it.
#[derive(Debug, Clone)]
pub enum HeaderField {
    /// The request does not carry the header.
    Absent,
    /// The header's value read as text (visible ASCII, space or tab).
    Text(String),
    /// The header's value holds other bytes.
    Invalid,
}

impl HeaderField {
    /// The header as plain values: `None` absent, `Some(None)` unreadable.
    pub open spec fn view_field(self) -> Option<Option<Seq<char>>> {
        match self {
            HeaderField::Absent => None,
            HeaderField::Text(t) => Some(Some(t@)),
            HeaderField::Invalid => Some(None),
        }
    }
}

/// The body of a POST to the proxy.
#[derive(Debug, Clone)]
pub struct ProxyRequest {
    pub original_url: String,
    pub batch_id: Option<String>,
    pub class_type: Option<String>,
    pub class_id: Option<String>,
    pub secret_val: Option<String>,
    /// Extra query parameters; they replace the class fields of their
    /// names, and of a name given twice the last value counts.
    pub params: Option<Vec<(String, String)>>,
    pub loginname: Option<String>,
    pub password: Option<String>,
    pub captcha: Option<String>,
    pub uuid: Option<String>,
}

/// Why the proxy answers a POST itself instead of forwarding it.
#[derive(Debug, Clone, Copy, PartialEq, Eq)]
pub enum ProxyRejection {
    /// The target is not an `https` URL of the course-selection server (403).
    UpstreamNotAllowed,
    /// The `Authorization` header is not visible ASCII text (400).
    InvalidAuthorization,
    /// The `BatchId` header is not visible ASCII text (400).
    InvalidBatchId,
    /// The form body could not be encoded (500).
    EncodeFailed,
}

/// The request the proxy sends upstream.
#[derive(Debug, Clone)]
pub struct UpstreamPlan {
    /// The target URL, as the client gave it.
    pub url: String,
    /// Header names and values, in the order they are set.
    pub headers: Vec<(String, String)>,
    /// The `application/x-www-form-urlencoded` body, if there is one.
    pub body: Option<String>,
    /// Query parameters.
    pub query: Vec<(String, String)>,
}

/// The browser identity the proxy presents upstream.
pub open spec fn user_agent() -> Seq<char> {
    "Mozilla/5.0 (Windows NT 10.0; Win64; x64) AppleWebKit/537.36 (KHTML, like Gecko) Chrome/139.0.0.0 Safari/537.36"@
}

/// A one-entry list `[(name, value)]` when `value` is present, else empty.
pub open spec fn field_if_present(name: Seq<char>, value: Option<Seq<char>>) -> Seq<(Seq<char>, Seq<char>)> {
    match value {
        Some(v) => seq![(name, v)],
        None => Seq::empty(),
    }
}

/// `name` is the name of some pair of `pairs`.
pub open spec fn has_name(pairs: Seq<(Seq<char>, Seq<char>)>, name: Seq<char>) -> bool {
    exists|i: int| 0 <= i < pairs.len() && pairs[i].0 == name
}

/// The form fields of the upstream body: the batch id only for the
/// `xsxk/elective/user` endpoint, then the login fields that are present.
pub open spec fn form_fields_spec(req: ProxyRequest) -> Seq<(Seq<char>, Seq<char>)> {
    (if seq_contains(req.original_url@, "xsxk/elective/user"@) {
        field_if_present("batchId"@, req.batch_id.deep_view())
    } else {
        Seq::empty()
    }) + field_if_present("loginname"@, req.loginname.deep_view()) + field_if_present(
        "password"@,
        req.password.deep_view(),
    ) + field_if_present("captcha"@, req.captcha.deep_view()) + field_if_present(
        "uuid"@,
        req.uuid.deep_view(),
    )
}

/// The request field that a form field of name `name` carries; no other
/// name has one.
pub open spec fn form_value(req: ProxyRequest, name: Seq<char>) -> Option<Seq<char>> {
    if name == "batchId"@ {
        req.batch_id.deep_view()
    } else if name == "loginname"@ {
        req.loginname.deep_view()
    } else if name == "password"@ {
        req.password.deep_view()
    } else if name == "captcha"@ {
        req.captcha.deep_view()
    } else if name == "uuid"@ {
        req.uuid.deep_view()
    } else {
        None
    }
}

/// The form field names differ pairwise.
proof fn lemma_form_names_distinct()
    ensures
        "batchId"@ != "loginname"@,
        "batchId"@ != "password"@,
        "batchId"@ != "captcha"@,
        "batchId"@ != "uuid"@,
        "loginname"@ != "password"@,
        "loginname"@ != "captcha"@,
        "loginname"@ != "uuid"@,
        "password"@ != "captcha"@,
        "password"@ != "uuid"@,
        "captcha"@ != "uuid"@,
{
    reveal_strlit("batchId");
    reveal_strlit("loginname");
    reveal_strlit("password");
    reveal_strlit("captcha");
    reveal_strlit("uuid");
    assert("batchId"@[0] == 'b');
    assert("loginname"@[0] == 'l');
    assert("password"@[0] == 'p');
    assert("captcha"@[0] == 'c');
    assert("uuid"@[0] == 'u');
}

/// The form body carries the request's login fields under their own names,
/// each present field once; the batch id goes into the form only for the
/// `xsxk/elective/user` endpoint.
pub proof fn lemma_form_fields_follow_request(req: ProxyRequest)
    ensures
        forall|k: int| 0 <= k < form_fields_spec(req).len() ==> form_value(req, #[trigger] form_fields_spec(req)[k].0)
            == Some(form_fields_spec(req)[k].1),
        forall|k: int| 0 <= k < form_fields_spec(req).len() && #[trigger] form_fields_spec(req)[k].0 == "batchId"@
            ==> seq_contains(req.original_url@, "xsxk/elective/user"@),
        forall|name: Seq<char>| #[trigger] form_value(req, name) is Some && (name != "batchId"@ || seq_contains(
            req.original_url@,
            "xsxk/elective/user"@,
        )) ==> form_fields_spec(req).contains((name, form_value(req, name)->0)),
        names_distinct(form_fields_spec(req)),
{
    lemma_form_names_distinct();
    let url = req.original_url@;
    let f = form_fields_spec(req);
    let p1: Seq<(Seq<char>, Seq<char>)> = if seq_contains(url, "xsxk/elective/user"@) {
        field_if_present("batchId"@, req.batch_id.deep_view())
    } else {
        Seq::empty()
    };
    let p2 = field_if_present("loginname"@, req.loginname.deep_view());
    let p3 = field_if_present("password"@, req.password.deep_view());
    let p4 = field_if_present("captcha"@, req.captcha.deep_view());
    let p5 = field_if_present("uuid"@, req.uuid.deep_view());
    let o2 = p1.len() as int;
    let o3 = o2 + p2.len();
    let o4 = o3 + p3.len();
    let o5 = o4 + p4.len();
    assert(f =~= p1 + p2 + p3 + p4 + p5);
    assert forall|k: int| 0 <= k < f.len() implies {
        ||| (k < o2 && #[trigger] f[k] == p1[k] && f[k].0 == "batchId"@)
        ||| (o2 <= k < o3 && f[k] == p2[k - o2] && f[k].0 == "loginname"@)
        ||| (o3 <= k < o4 && f[k] == p3[k - o3] && f[k].0 == "password"@)
        ||| (o4 <= k < o5 && f[k] == p4[k - o4] && f[k].0 == "captcha"@)
        ||| (o5 <= k && f[k] == p5[k - o5] && f[k].0 == "uuid"@)
    } by {
    }
    assert forall|name: Seq<char>| #[trigger] form_value(req, name) is Some && (name != "batchId"@ || seq_contains(
        url,
        "xsxk/elective/user"@,
    )) implies f.contains((name, form_value(req, name)->0)) by {
        if name == "batchId"@ {
            assert(f[0] == p1[0]);
        } else if name == "loginname"@ {
            assert(f[o2] == p2[0]);
        } else if name == "password"@ {
            assert(f[o3] == p3[0]);
        } else if name == "captcha"@ {
            assert(f[o4] == p4[0]);
        } else {
            assert(f[o5] == p5[0]);
        }
    }
}

/// The extra parameters of a request, as plain pairs.
pub open spec fn extra_params(req: ProxyRequest) -> Seq<(Seq<char>, Seq<char>)> {
    match req.params {
        Some(p) => p.deep_view(),
        None => Seq::empty(),
    }
}

/// A class field, unless an extra parameter of the same name overrides it.
pub open spec fn class_field(
    name: Seq<char>,
    value: Option<Seq<char>>,
    extra: Seq<(Seq<char>, Seq<char>)>,
) -> Seq<(Seq<char>, Seq<char>)> {
    if has_name(extra, name) {
        Seq::empty()
    } else {
        field_if_present(name, value)
    }
}

/// The pairs of `pairs` from index `i` on whose name does not occur again
/// later: for each name, its last value, as a map built from the pairs
/// keeps it.
pub open spec fn last_values_from(pairs: Seq<(Seq<char>, Seq<char>)>, i: int) -> Seq<(Seq<char>, Seq<char>)>
    decreases pairs.len() - i,
{
    if i < 0 || i >= pairs.len() {
        Seq::empty()
    } else {
        (if has_name(pairs.skip(i + 1), pairs[i].0) {
            Seq::empty()
        } else {
            seq![pairs[i]]
        }) + last_values_from(pairs, i + 1)
    }
}

/// For each name of `pairs`, its last value, in the order of those last
/// occurrences.
pub open spec fn last_values(pairs: Seq<(Seq<char>, Seq<char>)>) -> Seq<(Seq<char>, Seq<char>)> {
    last_values_from(pairs, 0)
}

/// No two pairs share a name.
pub open spec fn names_distinct(pairs: Seq<(Seq<char>, Seq<char>)>) -> bool {
    forall|i: int, j: int| 0 <= i < j < pairs.len() ==> pairs[i].0 != pairs[j].0
}

/// The upstream query: the class fields that no extra parameter overrides,
/// then the extra parameters, each name with its last value.
pub open spec fn query_spec(req: ProxyRequest) -> Seq<(Seq<char>, Seq<char>)> {
    let extra = extra_params(req);
    class_field("clazzType"@, req.class_type.deep_view(), extra) + class_field(
        "clazzId"@,
        req.class_id.deep_view(),
        extra,
    ) + class_field("secretVal"@, req.secret_val.deep_view(), extra) + last_values(extra)
}

/// What `last_values_from` keeps comes from `pairs` at or after `i`, and no
/// name occurs in it twice.
pub proof fn lemma_last_values_from(pairs: Seq<(Seq<char>, Seq<char>)>, i: int)
    requires
        0 <= i,
    ensures
        forall|k: int| 0 <= k < last_values_from(pairs, i).len() ==> exists|j: int| i <= j < pairs.len()
            && #[trigger] last_values_from(pairs, i)[k] == pairs[j],
        names_distinct(last_values_from(pairs, i)),
    decreases pairs.len() - i,
{
    if i < pairs.len() {
        lemma_last_values_from(pairs, i + 1);
        let rest = last_values_from(pairs, i + 1);
        let lv = last_values_from(pairs, i);
        if has_name(pairs.skip(i + 1), pairs[i].0) {
            assert(lv =~= rest);
        } else {
            assert(lv =~= seq![pairs[i]] + rest);
            assert forall|k: int| 0 <= k < lv.len() implies exists|j: int| i <= j < pairs.len()
                && #[trigger] lv[k] == pairs[j] by {
                if k > 0 {
                    assert(lv[k] == rest[k - 1]);
                } else {
                    assert(lv[k] == pairs[i]);
                }
            }
            assert forall|a: int, b: int| 0 <= a < b < lv.len() implies lv[a].0 != lv[b].0 by {
                if a > 0 {
                    assert(lv[a] == rest[a - 1]);
                    assert(lv[b] == rest[b - 1]);
                } else {
                    assert(lv[b] == rest[b - 1]);
                    let j = choose|j: int| i + 1 <= j < pairs.len() && rest[b - 1] == pairs[j];
                    assert(pairs.skip(i + 1)[j - i - 1] == pairs[j]);
                }
            }
        }
    }
}

/// The three class-field names differ.
proof fn lemma_class_names_differ()
    ensures
        "clazzType"@ != "clazzId"@,
        "clazzType"@ != "secretVal"@,
        "clazzId"@ != "secretVal"@,
{
    reveal_strlit("clazzType");
    reveal_strlit("clazzId");
    reveal_strlit("secretVal");
    assert("clazzType"@[5] != "clazzId"@[5]);
    assert("clazzType"@[0] != "secretVal"@[0]);
    assert("clazzId"@[0] != "secretVal"@[0]);
}

/// Every query name occurs once, as in the map the query is built from:
/// an extra parameter replaces the class field of its name, and of an extra
/// name given twice only the last value is sent.
pub proof fn lemma_query_names_distinct(req: ProxyRequest)
    ensures
        names_distinct(query_spec(req)),
{
    let extra = extra_params(req);
    lemma_last_values_from(extra, 0);
    lemma_class_names_differ();
    let a = class_field("clazzType"@, req.class_type.deep_view(), extra);
    let b = class_field("clazzId"@, req.class_id.deep_view(), extra);
    let c = class_field("secretVal"@, req.secret_val.deep_view(), extra);
    let lv = last_values(extra);
    let q = query_spec(req);
    let head = a + b + c;
    assert(q =~= head + lv);
    assert forall|k: int| #![trigger head[k]] 0 <= k < head.len() implies ({
        let nm = head[k].0;
        &&& (nm == "clazzType"@ || nm == "clazzId"@ || nm == "secretVal"@)
        &&& !has_name(extra, nm)
        &&& (nm == "clazzType"@ ==> k == 0)
        &&& (nm == "clazzId"@ ==> k == a.len())
        &&& (nm == "secretVal"@ ==> k == a.len() + b.len())
    }) by {
        if k < a.len() {
        } else if k < a.len() + b.len() {
        } else {
        }
    }
    assert forall|i: int, j: int| 0 <= i < j < q.len() implies q[i].0 != q[j].0 by {
        if j < head.len() {
            assert(q[i] == head[i]);
            assert(q[j] == head[j]);
        } else if i < head.len() {
            assert(q[i] == head[i]);
            assert(q[j] == lv[j - head.len()]);
            let jj = choose|jj: int| 0 <= jj < extra.len() && lv[j - head.len()] == extra[jj];
            if q[i].0 == q[j].0 {
                assert(has_name(extra, head[i].0));
            }
        } else {
            assert(q[i] == lv[i - head.len()]);
            assert(q[j] == lv[j - head.len()]);
        }
    }
}

/// The pair at `j` is the last of `pairs` with its name.
pub open spec fn last_of_its_name(pairs: Seq<(Seq<char>, Seq<char>)>, j: int) -> bool {
    0 <= j < pairs.len() && forall|m: int| j < m < pairs.len() ==> pairs[m].0 != pairs[j].0
}

/// The request field that a class query parameter of name `name` carries:
/// `clazzType` the class type, `clazzId` the class id, `secretVal` the
/// secret value; no other name has one.
pub open spec fn class_value(req: ProxyRequest, name: Seq<char>) -> Option<Seq<char>> {
    if name == "clazzType"@ {
        req.class_type.deep_view()
    } else if name == "clazzId"@ {
        req.class_id.deep_view()
    } else if name == "secretVal"@ {
        req.secret_val.deep_view()
    } else {
        None
    }
}

/// `x` is a pair of `pairs`, at or after `i`, that is the last of its name.
pub open spec fn kept_from(pairs: Seq<(Seq<char>, Seq<char>)>, i: int, x: (Seq<char>, Seq<char>)) -> bool {
    exists|j: int| i <= j && #[trigger] last_of_its_name(pairs, j) && x == pairs[j]
}

/// What `last_values_from` keeps is exactly the pairs at or after `i` that
/// are the last of their name.
proof fn lemma_last_values_members(pairs: Seq<(Seq<char>, Seq<char>)>, i: int)
    requires
        0 <= i,
    ensures
        forall|k: int| 0 <= k < last_values_from(pairs, i).len() ==> kept_from(pairs, i, #[trigger] last_values_from(pairs, i)[k]),
        forall|j: int| i <= j && #[trigger] last_of_its_name(pairs, j) ==> last_values_from(pairs, i).contains(pairs[j]),
    decreases pairs.len() - i,
{
    let lv = last_values_from(pairs, i);
    if i < pairs.len() {
        lemma_last_values_members(pairs, i + 1);
        let rest = last_values_from(pairs, i + 1);
        if has_name(pairs.skip(i + 1), pairs[i].0) {
            assert(lv =~= rest);
            let t = choose|t: int| 0 <= t < pairs.skip(i + 1).len() && #[trigger] pairs.skip(i + 1)[t].0 == pairs[i].0;
            assert(pairs.skip(i + 1)[t] == pairs[i + 1 + t]);
            assert(!last_of_its_name(pairs, i));
            assert forall|k: int| 0 <= k < lv.len() implies kept_from(pairs, i, #[trigger] lv[k]) by {
                assert(lv[k] == rest[k]);
                assert(kept_from(pairs, i + 1, rest[k]));
                let j = choose|j: int| i + 1 <= j && #[trigger] last_of_its_name(pairs, j) && rest[k] == pairs[j];
                assert(last_of_its_name(pairs, j));
            }
            assert forall|j: int| i <= j && #[trigger] last_of_its_name(pairs, j) implies lv.contains(pairs[j]) by {
                let k = choose|k: int| 0 <= k < rest.len() && rest[k] == pairs[j];
                assert(lv[k] == rest[k]);
            }
        } else {
            assert(lv =~= seq![pairs[i]] + rest);
            assert forall|m: int| i < m < pairs.len() implies pairs[m].0 != pairs[i].0 by {
                if pairs[m].0 == pairs[i].0 {
                    assert(pairs.skip(i + 1)[m - i - 1] == pairs[m]);
                }
            }
            assert(last_of_its_name(pairs, i));
            assert forall|k: int| 0 <= k < lv.len() implies kept_from(pairs, i, #[trigger] lv[k]) by {
                if k > 0 {
                    assert(lv[k] == rest[k - 1]);
                    assert(kept_from(pairs, i + 1, rest[k - 1]));
                    let j = choose|j: int| i + 1 <= j && #[trigger] last_of_its_name(pairs, j) && rest[k - 1] == pairs[j];
                    assert(last_of_its_name(pairs, j));
                } else {
                    assert(lv[k] == pairs[i]);
                }
            }
            assert forall|j: int| i <= j && #[trigger] last_of_its_name(pairs, j) implies lv.contains(pairs[j]) by {
                if j == i {
                    assert(lv[0] == pairs[i]);
                } else {
                    let k = choose|k: int| 0 <= k < rest.len() && rest[k] == pairs[j];
                    assert(lv[k + 1] == rest[k]);
                }
            }
        }
    } else {
        assert(lv.len() == 0);
    }
}

/// The upstream query carries the request as a map of parameters would:
/// every value sent under a name that no extra parameter has is the
/// request's class field of that name; every value sent under an extra
/// parameter's name is the last value given for it; every class field that
/// no extra parameter overrides, and the last value of every extra name, is
/// sent.
pub proof fn lemma_query_follows_request(req: ProxyRequest)
    ensures
        forall|k: int| 0 <= k < query_spec(req).len() && !has_name(extra_params(req), #[trigger] query_spec(req)[k].0)
            ==> class_value(req, query_spec(req)[k].0) == Some(query_spec(req)[k].1),
        forall|k: int| 0 <= k < query_spec(req).len() && has_name(extra_params(req), #[trigger] query_spec(req)[k].0)
            ==> exists|j: int| last_of_its_name(extra_params(req), j) && #[trigger] extra_params(req)[j] == query_spec(req)[k],
        forall|name: Seq<char>| #[trigger] class_value(req, name) is Some && !has_name(extra_params(req), name)
            ==> query_spec(req).contains((name, class_value(req, name)->0)),
        forall|j: int| #[trigger] last_of_its_name(extra_params(req), j) ==> query_spec(req).contains(extra_params(req)[j]),
{
    let extra = extra_params(req);
    lemma_last_values_members(extra, 0);
    lemma_class_names_differ();
    let a = class_field("clazzType"@, req.class_type.deep_view(), extra);
    let b = class_field("clazzId"@, req.class_id.deep_view(), extra);
    let c = class_field("secretVal"@, req.secret_val.deep_view(), extra);
    let lv = last_values(extra);
    let q = query_spec(req);
    let head = a + b + c;
    assert(q =~= head + lv);
    assert forall|k: int| 0 <= k < q.len() implies (!has_name(extra, #[trigger] q[k].0) ==> class_value(req, q[k].0)
        == Some(q[k].1)) && (has_name(extra, q[k].0) ==> exists|j: int| last_of_its_name(extra, j) && #[trigger] extra[j]
        == q[k]) by {
        if k < a.len() {
            assert(q[k] == a[k]);
        } else if k < a.len() + b.len() {
            assert(q[k] == b[k - a.len()]);
        } else if k < head.len() {
            assert(q[k] == c[k - a.len() - b.len()]);
        } else {
            assert(q[k] == lv[k - head.len()]);
            assert(kept_from(extra, 0, lv[k - head.len()]));
            let j = choose|j: int| 0 <= j && #[trigger] last_of_its_name(extra, j) && lv[k - head.len()] == extra[j];
            assert(extra[j].0 == q[k].0);
        }
    }
    assert forall|name: Seq<char>| #[trigger] class_value(req, name) is Some && !has_name(extra, name) implies q.contains(
        (name, class_value(req, name)->0),
    ) by {
        if name == "clazzType"@ {
            assert(q[0] == a[0]);
        } else if name == "clazzId"@ {
            assert(q[a.len() as int] == b[0]);
        } else {
            assert(q[(a.len() + b.len()) as int] == c[0]);
        }
    }
    assert forall|j: int| #[trigger] last_of_its_name(extra, j) implies q.contains(extra[j]) by {
        let k = choose|k: int| 0 <= k < lv.len() && lv[k] == extra[j];
        assert(q[(head.len() + k) as int] == lv[k]);
    }
}

/// The `Connection` header asks to keep the connection alive.
pub open spec fn wants_keep_alive(connection: Option<Option<Seq<char>>>) -> bool {
    match connection {
        Some(Some(t)) => eq_ignore_ascii_case_spec(t, "keep-alive"@),
        _ => false,
    }
}

/// The headers sent upstream, in order.
pub open spec fn headers_spec(
    req: ProxyRequest,
    authorization: Option<Option<Seq<char>>>,
    connection: Option<Option<Seq<char>>>,
    batch: Option<Option<Seq<char>>>,
    has_body: bool,
) -> Seq<(Seq<char>, Seq<char>)> {
    let url = req.original_url@;
    seq![("User-Agent"@, user_agent())] + (match authorization {
        Some(Some(t)) => seq![("Authorization"@, t)],
        _ => Seq::empty(),
    }) + (if wants_keep_alive(connection) {
        seq![("Connection"@, "keep-alive"@)]
    } else {
        Seq::empty()
    }) + (if seq_contains(url, "icourses.jlu.edu.cn"@) {
        seq![("Origin"@, "https://icourses.jlu.edu.cn"@)]
    } else {
        Seq::empty()
    }) + (match batch {
        Some(Some(b)) => if seq_contains(url, "xsxk/sc/clazz/list"@) {
            seq![("Referer"@, "https://icourses.jlu.edu.cn/xsxk/profile/index.html?batchId="@ + b)]
        } else {
            Seq::empty()
        },
        _ => Seq::empty(),
    }) + (if has_body {
        seq![("Content-Type"@, "application/x-www-form-urlencoded"@)]
    } else {
        Seq::empty()
    })
}

/// The header names the proxy sets differ from "Referer".
proof fn lemma_header_names_differ_from_referer()
    ensures
        "User-Agent"@ != "Referer"@,
        "Authorization"@ != "Referer"@,
        "Connection"@ != "Referer"@,
        "Origin"@ != "Referer"@,
        "Content-Type"@ != "Referer"@,
{
    reveal_strlit("Referer");
    reveal_strlit("User-Agent");
    reveal_strlit("Authorization");
    reveal_strlit("Connection");
    reveal_strlit("Origin");
    reveal_strlit("Content-Type");
    assert("Referer"@[0] == 'R');
    assert("User-Agent"@[0] == 'U');
    assert("Authorization"@[0] == 'A');
    assert("Connection"@[0] == 'C');
    assert("Origin"@[0] == 'O');
    assert("Content-Type"@[0] == 'C');
}

/// A `Referer` is sent only for the course-list endpoint
/// (`xsxk/sc/clazz/list`) with a readable `BatchId` header, and then once,
/// pointing at the profile page of that batch.
pub proof fn lemma_referer_only_for_course_list(
    req: ProxyRequest,
    authorization: Option<Option<Seq<char>>>,
    connection: Option<Option<Seq<char>>>,
    batch: Option<Option<Seq<char>>>,
    has_body: bool,
)
    ensures
        forall|k: int| 0 <= k < headers_spec(req, authorization, connection, batch, has_body).len()
            && #[trigger] headers_spec(req, authorization, connection, batch, has_body)[k].0 == "Referer"@ ==> {
                &&& seq_contains(req.original_url@, "xsxk/sc/clazz/list"@)
                &&& batch matches Some(Some(b)) && headers_spec(req, authorization, connection, batch, has_body)[k].1
                    == "https://icourses.jlu.edu.cn/xsxk/profile/index.html?batchId="@ + b
            },
        batch matches Some(Some(b)) ==> (seq_contains(req.original_url@, "xsxk/sc/clazz/list"@) ==> headers_spec(
            req,
            authorization,
            connection,
            batch,
            has_body,
        ).contains(("Referer"@, "https://icourses.jlu.edu.cn/xsxk/profile/index.html?batchId="@ + b))),
{
    lemma_header_names_differ_from_referer();
    let url = req.original_url@;
    let h = headers_spec(req, authorization, connection, batch, has_body);
    let p1 = seq![("User-Agent"@, user_agent())];
    let p2: Seq<(Seq<char>, Seq<char>)> = match authorization {
        Some(Some(t)) => seq![("Authorization"@, t)],
        _ => Seq::empty(),
    };
    let p3: Seq<(Seq<char>, Seq<char>)> = if wants_keep_alive(connection) {
        seq![("Connection"@, "keep-alive"@)]
    } else {
        Seq::empty()
    };
    let p4: Seq<(Seq<char>, Seq<char>)> = if seq_contains(url, "icourses.jlu.edu.cn"@) {
        seq![("Origin"@, "https://icourses.jlu.edu.cn"@)]
    } else {
        Seq::empty()
    };
    let p5: Seq<(Seq<char>, Seq<char>)> = match batch {
        Some(Some(b)) => if seq_contains(url, "xsxk/sc/clazz/list"@) {
            seq![("Referer"@, "https://icourses.jlu.edu.cn/xsxk/profile/index.html?batchId="@ + b)]
        } else {
            Seq::empty()
        },
        _ => Seq::empty(),
    };
    let p6: Seq<(Seq<char>, Seq<char>)> = if has_body {
        seq![("Content-Type"@, "application/x-www-form-urlencoded"@)]
    } else {
        Seq::empty()
    };
    let before = p1 + p2 + p3 + p4;
    assert(h =~= before + p5 + p6);
    assert forall|k: int| 0 <= k < before.len() implies #[trigger] before[k].0 != "Referer"@ by {
        if k < p1.len() {
            assert(before[k] == p1[k]);
        } else if k < p1.len() + p2.len() {
            assert(before[k] == p2[k - p1.len()]);
        } else if k < p1.len() + p2.len() + p3.len() {
            assert(before[k] == p3[k - p1.len() - p2.len()]);
        } else {
            assert(before[k] == p4[k - p1.len() - p2.len() - p3.len()]);
        }
    }
    assert forall|k: int| 0 <= k < h.len() && #[trigger] h[k].0 == "Referer"@ implies {
        &&& seq_contains(url, "xsxk/sc/clazz/list"@)
        &&& batch matches Some(Some(b)) && h[k].1 == "https://icourses.jlu.edu.cn/xsxk/profile/index.html?batchId="@ + b
    } by {
        if k < before.len() {
            assert(h[k] == before[k]);
        } else if k < before.len() + p5.len() {
            assert(h[k] == p5[k - before.len()]);
        } else {
            assert(h[k] == p6[k - before.len() - p5.len()]);
        }
    }
    if seq_contains(url, "xsxk/sc/clazz/list"@) && batch is Some && batch->0 is Some {
        assert(h[before.len() as int] == p5[0]);
    }
}

/// The header names the proxy sets are pairwise different.
proof fn lemma_header_names_distinct()
    ensures
        "User-Agent"@ != "Authorization"@,
        "User-Agent"@ != "Connection"@,
        "User-Agent"@ != "Origin"@,
        "User-Agent"@ != "Content-Type"@,
        "Authorization"@ != "Connection"@,
        "Authorization"@ != "Origin"@,
        "Authorization"@ != "Content-Type"@,
        "Connection"@ != "Origin"@,
        "Connection"@ != "Content-Type"@,
        "Origin"@ != "Content-Type"@,
{
    lemma_header_names_differ_from_referer();
    reveal_strlit("User-Agent");
    reveal_strlit("Authorization");
    reveal_strlit("Connection");
    reveal_strlit("Origin");
    reveal_strlit("Content-Type");
    assert("User-Agent"@[0] == 'U');
    assert("Authorization"@[0] == 'A');
    assert("Connection"@[0] == 'C');
    assert("Origin"@[0] == 'O');
    assert("Content-Type"@[0] == 'C');
    assert("Connection"@[3] == 'n');
    assert("Content-Type"@[3] == 't');
}

/// Each header the proxy sends upstream comes from what the request says:
/// the browser identity first; `Authorization` exactly when the incoming
/// one is readable, with its value; `Connection: keep-alive` exactly when
/// the incoming one asks for it; the course site's `Origin` exactly when the
/// target is on that site; and the form content type exactly when there is
/// a body.
pub proof fn lemma_headers_follow_request(
    req: ProxyRequest,
    authorization: Option<Option<Seq<char>>>,
    connection: Option<Option<Seq<char>>>,
    batch: Option<Option<Seq<char>>>,
    has_body: bool,
)
    ensures
        ({
            let h = headers_spec(req, authorization, connection, batch, has_body);
            &&& h.len() > 0 && h[0] == ("User-Agent"@, user_agent())
            &&& forall|k: int| 0 <= k < h.len() && #[trigger] h[k].0 == "Authorization"@ ==> authorization == Some(
                Some(h[k].1),
            )
            &&& (authorization matches Some(Some(t)) ==> h.contains(("Authorization"@, t)))
            &&& forall|k: int| 0 <= k < h.len() && #[trigger] h[k].0 == "Connection"@ ==> wants_keep_alive(connection)
                && h[k].1 == "keep-alive"@
            &&& (wants_keep_alive(connection) ==> h.contains(("Connection"@, "keep-alive"@)))
            &&& forall|k: int| 0 <= k < h.len() && #[trigger] h[k].0 == "Origin"@ ==> seq_contains(
                req.original_url@,
                "icourses.jlu.edu.cn"@,
            ) && h[k].1 == "https://icourses.jlu.edu.cn"@
            &&& (seq_contains(req.original_url@, "icourses.jlu.edu.cn"@) ==> h.contains(
                ("Origin"@, "https://icourses.jlu.edu.cn"@),
            ))
            &&& forall|k: int| 0 <= k < h.len() && #[trigger] h[k].0 == "Content-Type"@ ==> has_body && h[k].1
                == "application/x-www-form-urlencoded"@
            &&& (has_body ==> h.contains(("Content-Type"@, "application/x-www-form-urlencoded"@)))
        }),
{
    lemma_header_names_distinct();
    lemma_header_names_differ_from_referer();
    let url = req.original_url@;
    let h = headers_spec(req, authorization, connection, batch, has_body);
    let p1 = seq![("User-Agent"@, user_agent())];
    let p2: Seq<(Seq<char>, Seq<char>)> = match authorization {
        Some(Some(t)) => seq![("Authorization"@, t)],
        _ => Seq::empty(),
    };
    let p3: Seq<(Seq<char>, Seq<char>)> = if wants_keep_alive(connection) {
        seq![("Connection"@, "keep-alive"@)]
    } else {
        Seq::empty()
    };
    let p4: Seq<(Seq<char>, Seq<char>)> = if seq_contains(url, "icourses.jlu.edu.cn"@) {
        seq![("Origin"@, "https://icourses.jlu.edu.cn"@)]
    } else {
        Seq::empty()
    };
    let p5: Seq<(Seq<char>, Seq<char>)> = match batch {
        Some(Some(b)) => if seq_contains(url, "xsxk/sc/clazz/list"@) {
            seq![("Referer"@, "https://icourses.jlu.edu.cn/xsxk/profile/index.html?batchId="@ + b)]
        } else {
            Seq::empty()
        },
        _ => Seq::empty(),
    };
    let p6: Seq<(Seq<char>, Seq<char>)> = if has_body {
        seq![("Content-Type"@, "application/x-www-form-urlencoded"@)]
    } else {
        Seq::empty()
    };
    let o2 = p1.len() as int;
    let o3 = o2 + p2.len();
    let o4 = o3 + p3.len();
    let o5 = o4 + p4.len();
    let o6 = o5 + p5.len();
    assert(h =~= p1 + p2 + p3 + p4 + p5 + p6);
    assert forall|k: int| 0 <= k < h.len() implies {
        ||| (k < o2 && #[trigger] h[k] == p1[k])
        ||| (o2 <= k < o3 && h[k] == p2[k - o2])
        ||| (o3 <= k < o4 && h[k] == p3[k - o3])
        ||| (o4 <= k < o5 && h[k] == p4[k - o4])
        ||| (o5 <= k < o6 && h[k] == p5[k - o5])
        ||| (o6 <= k && h[k] == p6[k - o6])
    } by {
    }
    assert(h[0] == p1[0]);
    if authorization is Some && authorization->0 is Some {
        assert(h[o2] == p2[0]);
    }
    if wants_keep_alive(connection) {
        assert(h[o3] == p3[0]);
    }
    if seq_contains(url, "icourses.jlu.edu.cn"@) {
        assert(h[o4] == p4[0]);
    }
    if has_body {
        assert(h[o6] == p6[0]);
    }
}

/// The body sent upstream: the encoded form fields, when there are any.
pub open spec fn body_spec(req: ProxyRequest) -> Option<Seq<char>> {
    if form_fields_spec(req).len() > 0 {
        Some(form_urlencoded(form_fields_spec(req)))
    } else {
        None
    }
}

/// The rejection a POST meets, on its target and headers, if any: the
/// allow-list first, then the `Authorization` header, then `BatchId`.
pub open spec fn rejection(
    req: ProxyRequest,
    authorization: Option<Option<Seq<char>>>,
    batch: Option<Option<Seq<char>>>,
) -> Option<ProxyRejection> {
    if !upstream_allowed_spec(parsed_url_parts(req.original_url@)) {
        Some(ProxyRejection::UpstreamNotAllowed)
    } else if authorization == Some::<Option<Seq<char>>>(None) {
        Some(ProxyRejection::InvalidAuthorization)
    } else if batch == Some::<Option<Seq<char>>>(None) {
        Some(ProxyRejection::InvalidBatchId)
    } else {
        None
    }
}

/// The plan forwards `req` with the headers, body and query laid out by
/// [`headers_spec`], [`body_spec`] and [`query_spec`].
pub open spec fn plan_meets(
    plan: UpstreamPlan,
    req: ProxyRequest,
    authorization: Option<Option<Seq<char>>>,
    connection: Option<Option<Seq<char>>>,
    batch: Option<Option<Seq<char>>>,
) -> bool {
    &&& plan.url@ == req.original_url@
    &&& plan.headers.deep_view() == headers_spec(
        req,
        authorization,
        connection,
        batch,
        form_fields_spec(req).len() > 0,
    )
    &&& plan.body.deep_view() == body_spec(req)
    &&& plan.query.deep_view() == query_spec(req)
}

/// Appends `(name, value)` when `value` is present.
fn push_if_present(v: &mut Vec<(String, String)>, name: &str, value: &Option<String>)
    ensures
        final(v).deep_view() == old(v).deep_view() + field_if_present(name@, value.deep_view()),
{
    match value {
        Some(x) => {
            v.push((name.to_owned(), x.clone()));
            assert(final(v).deep_view() =~= old(v).deep_view() + field_if_present(name@, value.deep_view()));
        },
        None => {
            assert(final(v).deep_view() =~= old(v).deep_view() + field_if_present(name@, value.deep_view()));
        },
    }
}

/// Appends the pair `(name, value)`.
fn push_pair(v: &mut Vec<(String, String)>, name: &str, value: String)
    ensures
        final(v).deep_view() == old(v).deep_view() + seq![(name@, value@)],
{
    v.push((name.to_owned(), value));
    assert(final(v).deep_view() =~= old(v).deep_view() + seq![(name@, value@)]);
}

/// Whether some pair of `pairs` is named `name`.
fn pairs_have_name(pairs: &Vec<(String, String)>, name: &str) -> (r: bool)
    ensures
        r == has_name(pairs.deep_view(), name@),
{
    let mut i: usize = 0;
    while i < pairs.len()
        invariant
            i <= pairs.len(),
            forall|k: int| 0 <= k < i ==> pairs.deep_view()[k].0 != name@,
        decreases pairs.len() - i,
    {
        if str_equal(pairs[i].0.as_str(), name) {
            assert(pairs.deep_view()[i as int].0 == name@);
            return true;
        }
        i = i + 1;
    }
    false
}

/// Whether a pair of `pairs` at or after `from` is named `name`.
fn name_occurs_from(pairs: &Vec<(String, String)>, from: usize, name: &str) -> (r: bool)
    requires
        from <= pairs.len(),
    ensures
        r == has_name(pairs.deep_view().skip(from as int), name@),
{
    let ghost tail = pairs.deep_view().skip(from as int);
    let mut j: usize = from;
    while j < pairs.len()
        invariant
            from <= j <= pairs.len(),
            tail == pairs.deep_view().skip(from as int),
            forall|k: int| 0 <= k < j - from ==> tail[k].0 != name@,
        decreases pairs.len() - j,
    {
        if str_equal(pairs[j].0.as_str(), name) {
            assert(tail[j - from].0 == name@);
            return true;
        }
        j = j + 1;
    }
    false
}

/// Appends, for each name of `extra`, its last value.
fn push_last_values(v: &mut Vec<(String, String)>, extra: &Vec<(String, String)>)
    ensures
        final(v).deep_view() == old(v).deep_view() + last_values(extra.deep_view()),
{
    let ghost pairs = extra.deep_view();
    let mut kept: Vec<(String, String)> = Vec::new();
    let mut i: usize = extra.len();
    assert(kept.deep_view() =~= last_values_from(pairs, i as int));
    while i > 0
        invariant
            i <= extra.len(),
            pairs == extra.deep_view(),
            kept.deep_view() == last_values_from(pairs, i as int),
        decreases i,
    {
        i = i - 1;
        let later = name_occurs_from(extra, i + 1, extra[i].0.as_str());
        let ghost before = kept.deep_view();
        if !later {
            let pair = (extra[i].0.clone(), extra[i].1.clone());
            kept.insert(0, pair);
            assert(kept.deep_view() =~= seq![pairs[i as int]] + before);
        } else {
            assert(kept.deep_view() =~= Seq::<(Seq<char>, Seq<char>)>::empty() + before);
        }
    }
    let mut k: usize = 0;
    let ghost start = v.deep_view();
    while k < kept.len()
        invariant
            k <= kept.len(),
            v.deep_view() == start + kept.deep_view().take(k as int),
        decreases kept.len() - k,
    {
        let ghost prev = v.deep_view();
        v.push((kept[k].0.clone(), kept[k].1.clone()));
        assert(v.deep_view() =~= prev.push(kept.deep_view()[k as int]));
        assert(kept.deep_view().take(k + 1) =~= kept.deep_view().take(k as int).push(kept.deep_view()[k as int]));
        k = k + 1;
    }
    assert(kept.deep_view().take(kept.len() as int) =~= kept.deep_view());
}

/// The form fields of the upstream body.
fn form_fields(req: &ProxyRequest) -> (r: Vec<(String, String)>)
    ensures
        r.deep_view() == form_fields_spec(*req),
{
    let mut v: Vec<(String, String)> = Vec::new();
    let ghost empty = v.deep_view();
    assert(empty =~= Seq::<(Seq<char>, Seq<char>)>::empty());
    if str_contains(req.original_url.as_str(), "xsxk/elective/user") {
        push_if_present(&mut v, "batchId", &req.batch_id);
    }
    let ghost first = v.deep_view();
    push_if_present(&mut v, "loginname", &req.loginname);
    push_if_present(&mut v, "password", &req.password);
    push_if_present(&mut v, "captcha", &req.captcha);
    push_if_present(&mut v, "uuid", &req.uuid);
    assert(v.deep_view() =~= form_fields_spec(*req));
    v
}

/// The upstream query parameters.
fn query_params(req: &ProxyRequest) -> (r: Vec<(String, String)>)
    ensures
        r.deep_view() == query_spec(*req),
{
    let empty_extra: Vec<(String, String)> = Vec::new();
    let extra: &Vec<(String, String)> = match &req.params {
        Some(p) => p,
        None => &empty_extra,
    };
    assert(extra.deep_view() =~= extra_params(*req));
    let mut v: Vec<(String, String)> = Vec::new();
    assert(v.deep_view() =~= Seq::<(Seq<char>, Seq<char>)>::empty());
    if !pairs_have_name(extra, "clazzType") {
        push_if_present(&mut v, "clazzType", &req.class_type);
    }
    if !pairs_have_name(extra, "clazzId") {
        push_if_present(&mut v, "clazzId", &req.class_id);
    }
    if !pairs_have_name(extra, "secretVal") {
        push_if_present(&mut v, "secretVal", &req.secret_val);
    }
    push_last_values(&mut v, extra);
    assert(v.deep_view() =~= query_spec(*req));
    v
}

/// Plans the request that the proxy forwards upstream for a POST: checks the
/// target against the allow-list and the request headers, then lays out the
/// upstream headers, form body and query. `authorization`, `connection` and
/// `batch` are the `Authorization`, `Connection` and `BatchId` headers of the
/// incoming request.
pub fn plan_upstream_request(
    req: &ProxyRequest,
    authorization: &HeaderField,
    connection: &HeaderField,
    batch: &HeaderField,
) -> (r: Result<UpstreamPlan, ProxyRejection>)
    ensures
        match rejection(*req, authorization.view_field(), batch.view_field()) {
            Some(e) => r == Err::<UpstreamPlan, ProxyRejection>(e),
            None => r matches Ok(plan) && plan_meets(
                plan,
                *req,
                authorization.view_field(),
                connection.view_field(),
                batch.view_field(),
            ),
        },
        r matches Ok(plan) ==> names_distinct(plan.query.deep_view()),
{
    proof {
        lemma_query_names_distinct(*req);
    }
    if !is_allowed_upstream(req.original_url.as_str()) {
        return Err(ProxyRejection::UpstreamNotAllowed);
    }
    if let HeaderField::Invalid = authorization {
        return Err(ProxyRejection::InvalidAuthorization);
    }
    if let HeaderField::Invalid = batch {
        return Err(ProxyRejection::InvalidBatchId);
    }
    let url = req.original_url.as_str();
    let form = form_fields(req);
    let body: Option<String> = if form.len() > 0 {
        match encode_form(&form) {
            Ok(text) => Some(text),
            Err(_) => {
                return Err(ProxyRejection::EncodeFailed);
            },
        }
    } else {
        None
    };
    let mut headers: Vec<(String, String)> = Vec::new();
    assert(headers.deep_view() =~= Seq::<(Seq<char>, Seq<char>)>::empty());
    push_pair(
        &mut headers,
        "User-Agent",
        "Mozilla/5.0 (Windows NT 10.0; Win64; x64) AppleWebKit/537.36 (KHTML, like Gecko) Chrome/139.0.0.0 Safari/537.36".to_owned(),
    );
    let ghost h1 = headers.deep_view();
    if let HeaderField::Text(token) = authorization {
        push_pair(&mut headers, "Authorization", token.clone());
    }
    let ghost h2 = headers.deep_view();
    let keep_alive = match connection {
        HeaderField::Text(t) => str_eq_ignore_ascii_case(t.as_str(), "keep-alive"),
        _ => false,
    };
    if keep_alive {
        push_pair(&mut headers, "Connection", "keep-alive".to_owned());
    }
    let ghost h3 = headers.deep_view();
    if str_contains(url, "icourses.jlu.edu.cn") {
        push_pair(&mut headers, "Origin", "https://icourses.jlu.edu.cn".to_owned());
    }
    let ghost h4 = headers.deep_view();
    if let HeaderField::Text(b) = batch {
        if str_contains(url, "xsxk/sc/clazz/list") {
            let mut referer = "https://icourses.jlu.edu.cn/xsxk/profile/index.html?batchId=".to_owned();
            referer.append(b.as_str());
            push_pair(&mut headers, "Referer", referer);
        }
    }
    let ghost h5 = headers.deep_view();
    if form.len() > 0 {
        push_pair(&mut headers, "Content-Type", "application/x-www-form-urlencoded".to_owned());
    }
    assert(headers.deep_view() =~= headers_spec(
        *req,
        authorization.view_field(),
        connection.view_field(),
        batch.view_field(),
        form_fields_spec(*req).len() > 0,
    ));
    let query = query_params(req);
    Ok(UpstreamPlan { url: req.original_url.clone(), headers, body, query })
}

/// Why the proxy answers a GET itself instead of forwarding it.
#[derive(Debug, Clone, Copy, PartialEq, Eq)]
pub enum GetRejection {
    /// The GET proxy does not serve the endpoint (400).
    InvalidEndpoint,
    /// The `Authorization` header is not readable text (400).
    InvalidAuthorization,
}

/// The request the proxy sends upstream for a GET.
#[derive(Debug, Clone)]
pub struct GetPlan {
    /// The upstream URL.
    pub url: String,
    /// The `Authorization` header passed on, if the client sent one.
    pub authorization: Option<String>,
}

/// The `Authorization` value passed on: the header's text, if present.
pub open spec fn passed_authorization(authorization: Option<Option<Seq<char>>>) -> Option<Seq<char>> {
    match authorization {
        Some(Some(t)) => Some(t),
        _ => None,
    }
}

/// Plans the upstream request for a GET of `endpoint` with the query string
/// `params`: the endpoint must be one the GET proxy serves, then the
/// `Authorization` header, if any, must be readable; it is passed on.
pub fn plan_get_request(endpoint: &str, params: &str, authorization: &HeaderField) -> (r: Result<GetPlan, GetRejection>)
    ensures
        match get_upstream_url_spec(endpoint@, params@) {
            None => r == Err::<GetPlan, GetRejection>(GetRejection::InvalidEndpoint),
            Some(u) => if authorization.view_field() == Some::<Option<Seq<char>>>(None) {
                r == Err::<GetPlan, GetRejection>(GetRejection::InvalidAuthorization)
            } else {
                r matches Ok(p) && p.url@ == u && p.authorization.deep_view() == passed_authorization(
                    authorization.view_field(),
                )
            },
        },
{
    let url = match get_upstream_url(endpoint, params) {
        Some(u) => u,
        None => {
            return Err(GetRejection::InvalidEndpoint);
        },
    };
    let passed = match authorization {
        HeaderField::Invalid => {
            return Err(GetRejection::InvalidAuthorization);
        },
        HeaderField::Text(t) => Some(t.clone()),
        HeaderField::Absent => None,
    };
    Ok(GetPlan { url, authorization: passed })
}

/// Whether `serde_json::from_str::<serde_json::Value>` accepts `text`.
pub uninterp spec fn json_parses(text: Seq<char>) -> bool;

/// `serde_json::from_str::<serde_json::Value>` on `text`, reduced to whether
/// it succeeded. The contract claims only that the answer is the parser's,
/// as a function of the text alone.
#[verifier::external_body]
fn parses_as_json(text: &str) -> (r: bool)
    ensures
        r == json_parses(text@),
{
    serde_json::from_str::<serde_json::Value>(text).is_ok()
}

/// How the proxy answers with an upstream reply's text.
#[derive(Debug, Clone, Copy, PartialEq, Eq)]
pub enum ReplyKind {
    /// As JSON (`application/json`), the text being a JSON document.
    Json,
    /// As the raw text (`text/plain`).
    Text,
}

/// The answer for a reply whose text does, or does not, parse as JSON.
pub fn reply_kind(parses: bool) -> (r: ReplyKind)
    ensures
        parses ==> r == ReplyKind::Json,
        !parses ==> r == ReplyKind::Text,
{
    if parses {
        ReplyKind::Json
    } else {
        ReplyKind::Text
    }
}

/// How the proxy answers with the upstream reply `text`: as JSON when it
/// parses as JSON, else as plain text.
pub fn upstream_reply(text: &str) -> (r: ReplyKind)
    ensures
        json_parses(text@) ==> r == ReplyKind::Json,
        !json_parses(text@) ==> r == ReplyKind::Text,
{
    let parses = parses_as_json(text);
    reply_kind(parses)
}

} // verus!
