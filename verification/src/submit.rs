//! The submission orchestrator.
//!
//! Submitting a document is a fixed sequence of remote-state mutations:
//! enter draft mode, clear the stale page and question bindings of the
//! fetched [`AssessmentGraph`], upload each rendered page through a
//! two-phase storage handoff, and finalize with a signed manifest.
//! Everything the sequence decides — which requests to make, in which
//! order, with which bodies — is planned here as plain values; the
//! caller's transport performs each planned exchange and reports its
//! outcome.  Page uploads are independent of one another and may run
//! concurrently; the graph is read-only shared state.

use crate::error::CrowdmarkError;
use crate::graph::{
    resolve_question, spec_find_question, AssessmentGraph, GraphRep, PageEntry, PageRep,
};
use crate::json::{as_list, as_text, get, get1, list_of, text_of, JsonValue};
use crate::outside::fresh_uuid;
use crate::text::cat3;
use vstd::prelude::*;

verus! {

/// The verb of a planned platform request.
#[derive(Clone, Copy, Debug, PartialEq, Eq, Structural)]
pub enum HttpMethod {
    Get,
    Post,
    Patch,
    Put,
}

/// One planned platform request: the caller sends the body, when one is
/// planned, as JSON, attaching the anti-forgery token when asked to.
#[derive(Debug)]
pub struct ApiRequest {
    pub method: HttpMethod,
    pub url: String,
    pub body: Option<JsonValue>,
    pub with_csrf: bool,
}

/// One planned presigned-target request: a form-encoded POST to the
/// policy endpoint, without the anti-forgery token.
#[derive(Clone, Debug)]
pub struct PolicyRequest {
    pub url: String,
    pub form: Vec<(String, String)>,
}

/// A string member as a builder places it.
fn jtext(s: &str) -> (r: JsonValue)
    ensures
        r matches JsonValue::Text(t) && t@ == s@,
{
    JsonValue::Text(s.to_owned())
}

/// An object of one binding.
fn obj1(k1: &str, v1: JsonValue) -> (r: JsonValue)
    ensures
        r matches JsonValue::Object(fs) && fs@.len() == 1 && fs@[0].0@ == k1@ && fs@[0].1 == v1,
{
    let mut fields: Vec<(String, JsonValue)> = Vec::new();
    fields.push((k1.to_owned(), v1));
    JsonValue::Object(fields)
}

/// An object of two bindings, in order.
fn obj2(k1: &str, v1: JsonValue, k2: &str, v2: JsonValue) -> (r: JsonValue)
    ensures
        r matches JsonValue::Object(fs) && fs@.len() == 2 && fs@[0].0@ == k1@ && fs@[0].1 == v1
            && fs@[1].0@ == k2@ && fs@[1].1 == v2,
{
    let mut fields: Vec<(String, JsonValue)> = Vec::new();
    fields.push((k1.to_owned(), v1));
    fields.push((k2.to_owned(), v2));
    JsonValue::Object(fields)
}

/// An object of three bindings, in order.
fn obj3(k1: &str, v1: JsonValue, k2: &str, v2: JsonValue, k3: &str, v3: JsonValue) -> (r:
    JsonValue)
    ensures
        r matches JsonValue::Object(fs) && fs@.len() == 3 && fs@[0].0@ == k1@ && fs@[0].1 == v1
            && fs@[1].0@ == k2@ && fs@[1].1 == v2 && fs@[2].0@ == k3@ && fs@[2].1 == v3,
{
    let mut fields: Vec<(String, JsonValue)> = Vec::new();
    fields.push((k1.to_owned(), v1));
    fields.push((k2.to_owned(), v2));
    fields.push((k3.to_owned(), v3));
    JsonValue::Object(fields)
}

/// An object of four bindings, in order.
fn obj4(k1: &str, v1: JsonValue, k2: &str, v2: JsonValue, k3: &str, v3: JsonValue, k4: &str,
    v4: JsonValue) -> (r: JsonValue)
    ensures
        r matches JsonValue::Object(fs) && fs@.len() == 4 && fs@[0].0@ == k1@ && fs@[0].1 == v1
            && fs@[1].0@ == k2@ && fs@[1].1 == v2 && fs@[2].0@ == k3@ && fs@[2].1 == v3 && fs@[
            3].0@ == k4@ && fs@[3].1 == v4,
{
    let mut fields: Vec<(String, JsonValue)> = Vec::new();
    fields.push((k1.to_owned(), v1));
    fields.push((k2.to_owned(), v2));
    fields.push((k3.to_owned(), v3));
    fields.push((k4.to_owned(), v4));
    JsonValue::Object(fields)
}

/// An object of five bindings, in order.
fn obj5(k1: &str, v1: JsonValue, k2: &str, v2: JsonValue, k3: &str, v3: JsonValue, k4: &str,
    v4: JsonValue, k5: &str, v5: JsonValue) -> (r: JsonValue)
    ensures
        r matches JsonValue::Object(fs) && fs@.len() == 5 && fs@[0].0@ == k1@ && fs@[0].1 == v1
            && fs@[1].0@ == k2@ && fs@[1].1 == v2 && fs@[2].0@ == k3@ && fs@[2].1 == v3 && fs@[
            3].0@ == k4@ && fs@[3].1 == v4 && fs@[4].0@ == k5@ && fs@[4].1 == v5,
{
    let mut fields: Vec<(String, JsonValue)> = Vec::new();
    fields.push((k1.to_owned(), v1));
    fields.push((k2.to_owned(), v2));
    fields.push((k3.to_owned(), v3));
    fields.push((k4.to_owned(), v4));
    fields.push((k5.to_owned(), v5));
    JsonValue::Object(fields)
}

/// The policy endpoint granting presigned storage targets.
pub fn s3_policies_url() -> (r: &'static str)
    ensures
        r@ == "https://app.crowdmark.com/api/v1/s3_policies"@,
{
    "https://app.crowdmark.com/api/v1/s3_policies"
}

/// The endpoint that registers a freshly uploaded page.
pub fn assignment_pages_url() -> (r: &'static str)
    ensures
        r@ == "https://app.crowdmark.com/api/v2/student/assignment-pages"@,
{
    "https://app.crowdmark.com/api/v2/student/assignment-pages"
}

/// The draft-mode action for one assignment.
pub open spec fn spec_draft_url(assignment_id: Seq<char>) -> Seq<char> {
    "https://app.crowdmark.com/api/v2/student/assignments/"@ + assignment_id
        + "/start-drafting"@
}

/// The resource address of one already-registered page.
pub open spec fn spec_page_url(page_id: Seq<char>) -> Seq<char> {
    "https://app.crowdmark.com/api/v2/student/assignment-pages/"@ + page_id
}

/// The resource address of one declared question.
pub open spec fn spec_question_url(question_id: Seq<char>) -> Seq<char> {
    "https://app.crowdmark.com/api/v2/student/assignment-questions/"@ + question_id
}

/// The resource address of one assignment.
pub open spec fn spec_assignment_url(assignment_id: Seq<char>) -> Seq<char> {
    "https://app.crowdmark.com/api/v2/student/assignments/"@ + assignment_id
}

/// The body that marks one stale page for deletion and detaches its
/// question.
pub open spec fn clear_page_body_ok(b: JsonValue, page_id: Seq<char>) -> bool {
    &&& b matches JsonValue::Object(top)
    &&& top@.len() == 1
    &&& top@[0].0@ == "data"@
    &&& top@[0].1 matches JsonValue::Object(d)
    &&& d@.len() == 4
    &&& d@[0].0@ == "id"@
    &&& d@[0].1 matches JsonValue::Text(pid)
    &&& pid@ == page_id
    &&& d@[1].0@ == "attributes"@
    &&& d@[1].1 matches JsonValue::Object(a)
    &&& a@.len() == 1
    &&& a@[0].0@ == "state"@
    &&& a@[0].1 matches JsonValue::Text(st)
    &&& st@ == "pending_delete"@
    &&& d@[2].0@ == "relationships"@
    &&& d@[2].1 matches JsonValue::Object(rel)
    &&& rel@.len() == 1
    &&& rel@[0].0@ == "question"@
    &&& rel@[0].1 matches JsonValue::Object(q)
    &&& q@.len() == 1
    &&& q@[0].0@ == "data"@
    &&& q@[0].1 matches JsonValue::Object(qd)
    &&& qd@.len() == 2
    &&& qd@[0].0@ == "type"@
    &&& qd@[0].1 matches JsonValue::Text(qt)
    &&& qt@ == "assignment-questions"@
    &&& qd@[1].0@ == "id"@
    &&& qd@[1].1 matches JsonValue::Text(qi)
    &&& qi@ == ""@
    &&& d@[3].0@ == "type"@
    &&& d@[3].1 matches JsonValue::Text(ty)
    &&& ty@ == "assignment-pages"@
}

/// The body that detaches one declared question from any anchored page
/// and re-affirms its assignment.
pub open spec fn clear_question_body_ok(b: JsonValue, question_id: Seq<char>,
    assignment_id: Seq<char>) -> bool {
    &&& b matches JsonValue::Object(top)
    &&& top@.len() == 1
    &&& top@[0].0@ == "data"@
    &&& top@[0].1 matches JsonValue::Object(d)
    &&& d@.len() == 3
    &&& d@[0].0@ == "id"@
    &&& d@[0].1 matches JsonValue::Text(qid)
    &&& qid@ == question_id
    &&& d@[1].0@ == "relationships"@
    &&& d@[1].1 matches JsonValue::Object(rel)
    &&& rel@.len() == 2
    &&& rel@[0].0@ == "anchored-to-exam-page"@
    &&& rel@[0].1 matches JsonValue::Object(an)
    &&& an@.len() == 1
    &&& an@[0].0@ == "data"@
    &&& an@[0].1 is Null
    &&& rel@[1].0@ == "assignment"@
    &&& rel@[1].1 matches JsonValue::Object(asg)
    &&& asg@.len() == 1
    &&& asg@[0].0@ == "data"@
    &&& asg@[0].1 matches JsonValue::Object(ad)
    &&& ad@.len() == 2
    &&& ad@[0].0@ == "id"@
    &&& ad@[0].1 matches JsonValue::Text(aid)
    &&& aid@ == assignment_id
    &&& ad@[1].0@ == "type"@
    &&& ad@[1].1 matches JsonValue::Text(at)
    &&& at@ == "assignments"@
    &&& d@[2].0@ == "type"@
    &&& d@[2].1 matches JsonValue::Text(ty)
    &&& ty@ == "assignment-questions"@
}

/// The body that registers one freshly uploaded page under its resolved
/// question.
pub open spec fn register_page_body_ok(b: JsonValue, number: int, filename: Seq<char>,
    uuid: Seq<char>, question_id: Seq<char>) -> bool {
    &&& b matches JsonValue::Object(top)
    &&& top@.len() == 1
    &&& top@[0].0@ == "data"@
    &&& top@[0].1 matches JsonValue::Object(d)
    &&& d@.len() == 3
    &&& d@[0].0@ == "type"@
    &&& d@[0].1 matches JsonValue::Text(ty)
    &&& ty@ == "assignment-pages"@
    &&& d@[1].0@ == "attributes"@
    &&& d@[1].1 matches JsonValue::Object(a)
    &&& a@.len() == 4
    &&& a@[0].0@ == "number"@
    &&& a@[0].1 matches JsonValue::Int(n)
    &&& n == number
    &&& a@[1].0@ == "filename"@
    &&& a@[1].1 matches JsonValue::Text(f)
    &&& f@ == filename
    &&& a@[2].0@ == "uuid"@
    &&& a@[2].1 matches JsonValue::Text(u)
    &&& u@ == uuid
    &&& a@[3].0@ == "is-anchor"@
    &&& a@[3].1 matches JsonValue::Bool(an)
    &&& an == true
    &&& d@[2].0@ == "relationships"@
    &&& d@[2].1 matches JsonValue::Object(rel)
    &&& rel@.len() == 1
    &&& rel@[0].0@ == "question"@
    &&& rel@[0].1 matches JsonValue::Object(q)
    &&& q@.len() == 1
    &&& q@[0].0@ == "data"@
    &&& q@[0].1 matches JsonValue::Object(qd)
    &&& qd@.len() == 2
    &&& qd@[0].0@ == "type"@
    &&& qd@[0].1 matches JsonValue::Text(qt)
    &&& qt@ == "assignment-questions"@
    &&& qd@[1].0@ == "id"@
    &&& qd@[1].1 matches JsonValue::Text(qi)
    &&& qi@ == question_id
}

/// A planned request that marks one stale page for deletion.
pub open spec fn is_clear_page_request(req: ApiRequest, page_id: Seq<char>) -> bool {
    &&& req.method == HttpMethod::Patch
    &&& req.url@ == spec_page_url(page_id)
    &&& req.with_csrf
    &&& req.body matches Some(b) && clear_page_body_ok(b, page_id)
}

/// A planned request that detaches one declared question.
pub open spec fn is_clear_question_request(req: ApiRequest, question_id: Seq<char>,
    assignment_id: Seq<char>) -> bool {
    &&& req.method == HttpMethod::Patch
    &&& req.url@ == spec_question_url(question_id)
    &&& req.with_csrf
    &&& req.body matches Some(b) && clear_question_body_ok(b, question_id, assignment_id)
}

/// The planned draft-mode request: its answer's body is ignored, only a
/// transport failure counts.
pub fn draft_request(assignment_id: &str) -> (r: ApiRequest)
    ensures
        r.method == HttpMethod::Post,
        r.url@ == spec_draft_url(assignment_id@),
        r.body is None,
        r.with_csrf,
{
    ApiRequest {
        method: HttpMethod::Post,
        url: cat3(
            "https://app.crowdmark.com/api/v2/student/assignments/",
            assignment_id,
            "/start-drafting",
        ),
        body: None,
        with_csrf: true,
    }
}

/// Plans the clearing of all stale state: one patch per existing page,
/// then one per declared question.  The page patches and the question
/// patches touch disjoint fields and carry no ordering dependency, but
/// every one of them must succeed before fresh uploads may begin.  A
/// graph with no pages and no questions yields an empty plan: clearing
/// is then trivially complete, with no request made.
pub fn clear_plan(g: &AssessmentGraph) -> (r: Vec<ApiRequest>)
    ensures
        r@.len() == g@.pages.len() + g@.questions.len(),
        forall|i: int|
            0 <= i < g@.pages.len() ==> is_clear_page_request(#[trigger] r@[i], g@.pages[i].id),
        forall|j: int|
            0 <= j < g@.questions.len() ==> is_clear_question_request(
                #[trigger] r@[g@.pages.len() + j],
                g@.questions[j].id,
                g@.id,
            ),
{
    let mut out: Vec<ApiRequest> = Vec::new();
    let mut i: usize = 0;
    while i < g.pages.len()
        invariant
            i <= g.pages@.len(),
            g@.pages.len() == g.pages@.len(),
            out@.len() == i,
            forall|p: int|
                0 <= p < i ==> is_clear_page_request(#[trigger] out@[p], g@.pages[p].id),
        decreases g.pages@.len() - i,
    {
        let page_id = &g.pages[i].id;
        let body = obj1(
            "data",
            obj4(
                "id",
                jtext(page_id.as_str()),
                "attributes",
                obj1("state", jtext("pending_delete")),
                "relationships",
                obj1(
                    "question",
                    obj1(
                        "data",
                        obj2("type", jtext("assignment-questions"), "id", jtext("")),
                    ),
                ),
                "type",
                jtext("assignment-pages"),
            ),
        );
        let req = ApiRequest {
            method: HttpMethod::Patch,
            url: crate::text::cat2(
                "https://app.crowdmark.com/api/v2/student/assignment-pages/",
                page_id.as_str(),
            ),
            body: Some(body),
            with_csrf: true,
        };
        out.push(req);
        i = i + 1;
    }
    let ghost pages_len = g@.pages.len();
    let mut j: usize = 0;
    while j < g.questions.len()
        invariant
            j <= g.questions@.len(),
            g@.questions.len() == g.questions@.len(),
            pages_len == g@.pages.len(),
            out@.len() == pages_len + j,
            forall|p: int|
                0 <= p < pages_len ==> is_clear_page_request(#[trigger] out@[p], g@.pages[p].id),
            forall|q: int|
                0 <= q < j ==> is_clear_question_request(
                    #[trigger] out@[pages_len + q],
                    g@.questions[q].id,
                    g@.id,
                ),
        decreases g.questions@.len() - j,
    {
        let question_id = &g.questions[j].id;
        let body = obj1(
            "data",
            obj3(
                "id",
                jtext(question_id.as_str()),
                "relationships",
                obj2(
                    "anchored-to-exam-page",
                    obj1("data", JsonValue::Null),
                    "assignment",
                    obj1(
                        "data",
                        obj2("id", jtext(g.id.as_str()), "type", jtext("assignments")),
                    ),
                ),
                "type",
                jtext("assignment-questions"),
            ),
        );
        let req = ApiRequest {
            method: HttpMethod::Patch,
            url: crate::text::cat2(
                "https://app.crowdmark.com/api/v2/student/assignment-questions/",
                question_id.as_str(),
            ),
            body: Some(body),
            with_csrf: true,
        };
        out.push(req);
        j = j + 1;
    }
    out
}

/// An empty snapshot clears in zero requests: clearing is idempotent on
/// an assessment that has nothing to clear.
pub proof fn lemma_clear_plan_empty(g: AssessmentGraph, r: Seq<ApiRequest>)
    requires
        g@.pages.len() == 0,
        g@.questions.len() == 0,
        r.len() == g@.pages.len() + g@.questions.len(),
    ensures
        r.len() == 0,
{
}

/// One presigned upload target: the storage endpoint, the object key,
/// and the signed form fields to send along.  Single-use: a fresh one
/// is requested for every page, and once more for the manifest
/// signature.
#[derive(Clone, Debug)]
pub struct UploadTarget {
    pub bucket: String,
    pub key: String,
    pub fields: Vec<(String, String)>,
}

/// The mathematical content of an [`UploadTarget`].
pub struct TargetRep {
    pub bucket: Seq<char>,
    pub key: Seq<char>,
    pub fields: Seq<(Seq<char>, Seq<char>)>,
}

impl View for UploadTarget {
    type V = TargetRep;

    open spec fn view(&self) -> TargetRep {
        TargetRep { bucket: self.bucket@, key: self.key@, fields: self.fields.deep_view() }
    }
}

/// What one signed form field decodes to: a list whose first two
/// elements are the field's name and value.
pub open spec fn spec_field_pair(v: JsonValue) -> Option<(Seq<char>, Seq<char>)> {
    match v {
        JsonValue::List(items) => if items@.len() >= 2 {
            match (items@[0], items@[1]) {
                (JsonValue::Text(a), JsonValue::Text(b)) => Some((a@, b@)),
                _ => None,
            }
        } else {
            None
        },
        _ => None,
    }
}

/// What the signed field list decodes to, in order.
pub open spec fn spec_fields(items: Seq<JsonValue>) -> Option<Seq<(Seq<char>, Seq<char>)>>
    decreases items.len(),
{
    if items.len() == 0 {
        Some(Seq::<(Seq<char>, Seq<char>)>::empty())
    } else {
        match spec_fields(items.drop_last()) {
            None => None,
            Some(rest) => match spec_field_pair(items.last()) {
                None => None,
                Some(p) => Some(rest.push(p)),
            },
        }
    }
}

/// What a policy answer decodes to: the presigned upload target, when
/// the answer carries the promised members.
pub open spec fn spec_upload_target(doc: JsonValue) -> Option<TargetRep> {
    if text_of(get1(doc, "bucket"@)) is None {
        None
    } else if text_of(get1(doc, "key"@)) is None {
        None
    } else if list_of(get1(doc, "fields"@)) is None {
        None
    } else {
        match spec_fields(list_of(get1(doc, "fields"@))->0) {
            None => None,
            Some(fields) => Some(
                TargetRep {
                    bucket: text_of(get1(doc, "bucket"@))->0,
                    key: text_of(get1(doc, "key"@))->0,
                    fields,
                },
            ),
        }
    }
}

/// A prefix that already fails to decode decides the whole field list.
proof fn lemma_fields_none_persists(items: Seq<JsonValue>, i: int)
    requires
        0 <= i <= items.len(),
        spec_fields(items.take(i)) is None,
    ensures
        spec_fields(items) is None,
    decreases items.len() - i,
{
    if i < items.len() {
        assert(items.take(i + 1).drop_last() =~= items.take(i));
        lemma_fields_none_persists(items, i + 1);
    } else {
        assert(items.take(i) =~= items);
    }
}

/// Decodes a policy answer into the presigned upload target it grants.
#[verifier::loop_isolation(false)]
pub fn decode_upload_target(doc: &JsonValue) -> (r: Result<UploadTarget, CrowdmarkError>)
    ensures
        match r {
            Ok(t) => spec_upload_target(*doc) == Some(t@),
            Err(err) => spec_upload_target(*doc) is None && err matches
                CrowdmarkError::S3PolicyError,
        },
{
    let bucket = match get(doc, "bucket") {
        Some(v) => match as_text(v) {
            Some(s) => s,
            None => {
                return Err(CrowdmarkError::S3PolicyError);
            },
        },
        None => {
            return Err(CrowdmarkError::S3PolicyError);
        },
    };
    let key = match get(doc, "key") {
        Some(v) => match as_text(v) {
            Some(s) => s,
            None => {
                return Err(CrowdmarkError::S3PolicyError);
            },
        },
        None => {
            return Err(CrowdmarkError::S3PolicyError);
        },
    };
    let items = match get(doc, "fields") {
        Some(v) => match as_list(v) {
            Some(items) => items,
            None => {
                return Err(CrowdmarkError::S3PolicyError);
            },
        },
        None => {
            return Err(CrowdmarkError::S3PolicyError);
        },
    };
    let mut fields: Vec<(String, String)> = Vec::new();
    let mut i: usize = 0;
    proof {
        assert(items@.take(0) =~= Seq::<JsonValue>::empty());
        assert(fields.deep_view() =~= Seq::<(Seq<char>, Seq<char>)>::empty());
    }
    while i < items.len()
        invariant
            i <= items.len(),
            spec_fields(items@.take(i as int)) == Some(fields.deep_view()),
        decreases items.len() - i,
    {
        let ghost prefix = items@.take(i as int);
        proof {
            assert(items@.take(i as int + 1).drop_last() =~= prefix);
            assert(items@.take(i as int + 1).last() == items@[i as int]);
        }
        let pair = match as_list(&items[i]) {
            Some(elems) => {
                if elems.len() < 2 {
                    proof {
                        lemma_fields_none_persists(items@, i as int + 1);
                    }
                    return Err(CrowdmarkError::S3PolicyError);
                }
                let name = match as_text(&elems[0]) {
                    Some(s) => s,
                    None => {
                        proof {
                            lemma_fields_none_persists(items@, i as int + 1);
                        }
                        return Err(CrowdmarkError::S3PolicyError);
                    },
                };
                let value = match as_text(&elems[1]) {
                    Some(s) => s,
                    None => {
                        proof {
                            lemma_fields_none_persists(items@, i as int + 1);
                        }
                        return Err(CrowdmarkError::S3PolicyError);
                    },
                };
                (name.clone(), value.clone())
            },
            None => {
                proof {
                    lemma_fields_none_persists(items@, i as int + 1);
                }
                return Err(CrowdmarkError::S3PolicyError);
            },
        };
        fields.push(pair);
        proof {
            assert(fields.deep_view() =~= spec_fields(items@.take(i as int + 1))->0);
        }
        i = i + 1;
    }
    proof {
        assert(items@.take(i as int) =~= items@);
    }
    Ok(UploadTarget { bucket: bucket.clone(), key: key.clone(), fields })
}

/// Decodes a policy answer into the manifest's upload signature.
pub fn decode_upload_signature(doc: &JsonValue) -> (r: Result<String, CrowdmarkError>)
    ensures
        match r {
            Ok(s) => text_of(get1(*doc, "upload_signature"@)) == Some(s@),
            Err(err) => text_of(get1(*doc, "upload_signature"@)) is None && err matches
                CrowdmarkError::S3PolicyError,
        },
{
    match get(doc, "upload_signature") {
        Some(v) => match as_text(v) {
            Some(s) => Ok(s.clone()),
            None => Err(CrowdmarkError::S3PolicyError),
        },
        None => Err(CrowdmarkError::S3PolicyError),
    }
}

/// Plans the presigned-target request for one page upload, tagged with
/// the page's fresh identifier and the declared image content type.
pub fn page_policy_request(assignment_id: &str, uuid: &str) -> (r: PolicyRequest)
    ensures
        r.url@ == "https://app.crowdmark.com/api/v1/s3_policies"@,
        r.form.deep_view() =~= seq![
            ("enrollment_uuid"@, assignment_id@),
            ("requested_uuid"@, uuid@),
            ("original_filename"@, assignment_id@),
            ("content_type"@, "image/jpeg"@),
        ],
{
    let mut form: Vec<(String, String)> = Vec::new();
    form.push(("enrollment_uuid".to_owned(), assignment_id.to_owned()));
    form.push(("requested_uuid".to_owned(), uuid.to_owned()));
    form.push(("original_filename".to_owned(), assignment_id.to_owned()));
    form.push(("content_type".to_owned(), "image/jpeg".to_owned()));
    PolicyRequest { url: s3_policies_url().to_owned(), form }
}

/// Plans the presigned-signature request that keys the manifest to the
/// assignment's enrollment identity.
pub fn signature_policy_request(assignment_id: &str) -> (r: PolicyRequest)
    ensures
        r.url@ == "https://app.crowdmark.com/api/v1/s3_policies"@,
        r.form.deep_view() =~= seq![("enrollment_uuid"@, assignment_id@)],
{
    let mut form: Vec<(String, String)> = Vec::new();
    form.push(("enrollment_uuid".to_owned(), assignment_id.to_owned()));
    PolicyRequest { url: s3_policies_url().to_owned(), form }
}

/// The text parts of the storage upload form, in order: the signed
/// fields of the target, then the object key, the content type, and the
/// original filename.  The caller appends the file part carrying the
/// image bytes under the same filename.
pub fn storage_upload_form(target: &UploadTarget, filename: &str) -> (r: Vec<(String, String)>)
    ensures
        r.deep_view() =~= target@.fields + seq![
            ("key"@, target@.key),
            ("Content-Type"@, "image/jpeg"@),
            ("x-amz-meta-original-filename"@, filename@),
        ],
{
    let mut out: Vec<(String, String)> = Vec::new();
    let mut i: usize = 0;
    while i < target.fields.len()
        invariant
            i <= target.fields.len(),
            out@.len() == i,
            forall|k: int|
                0 <= k < i ==> #[trigger] out.deep_view()[k] == target.fields.deep_view()[k],
        decreases target.fields.len() - i,
    {
        let name = target.fields[i].0.clone();
        let value = target.fields[i].1.clone();
        let ghost before_vec = out@;
        let ghost before_deep = out.deep_view();
        out.push((name, value));
        proof {
            assert(out@ == before_vec.push((name, value)));
            assert(out.deep_view()[i as int] == out@[i as int].deep_view());
            assert(out@[i as int].deep_view() == (name@, value@));
            assert(target.fields.deep_view()[i as int] == target.fields@[
                i as int
            ].deep_view());
            assert forall|k: int| 0 <= k < i implies #[trigger] out.deep_view()[k]
                == target.fields.deep_view()[k] by {
                assert(out@[k] == before_vec[k]);
                assert(out.deep_view()[k] == out@[k].deep_view());
                assert(before_deep[k] == before_vec[k].deep_view());
            }
        }
        i = i + 1;
    }
    let ghost n = target.fields@.len() as int;
    let ghost base_vec = out@;
    let ghost base_deep = out.deep_view();
    let p1 = ("key".to_owned(), target.key.clone());
    let p2 = ("Content-Type".to_owned(), "image/jpeg".to_owned());
    let p3 = ("x-amz-meta-original-filename".to_owned(), filename.to_owned());
    let ghost q1 = p1;
    let ghost q2 = p2;
    let ghost q3 = p3;
    out.push(p1);
    out.push(p2);
    out.push(p3);
    proof {
        assert(out@ == base_vec.push(q1).push(q2).push(q3));
        assert forall|k: int| 0 <= k < n implies #[trigger] out.deep_view()[k]
            == target.fields.deep_view()[k] by {
            assert(out@[k] == base_vec[k]);
            assert(out.deep_view()[k] == out@[k].deep_view());
            assert(base_deep[k] == base_vec[k].deep_view());
        }
        assert(out@[n] == q1);
        assert(out@[n + 1] == q2);
        assert(out@[n + 2] == q3);
        assert(out.deep_view()[n] == (q1.0@, q1.1@));
        assert(out.deep_view()[n + 1] == (q2.0@, q2.1@));
        assert(out.deep_view()[n + 2] == (q3.0@, q3.1@));
        assert(out.deep_view() =~= target@.fields + seq![
            ("key"@, target@.key),
            ("Content-Type"@, "image/jpeg"@),
            ("x-amz-meta-original-filename"@, filename@),
        ]);
    }
    out
}

/// A planned request that registers one uploaded page.
pub open spec fn is_register_request(req: ApiRequest, number: int, filename: Seq<char>,
    uuid: Seq<char>, question_id: Seq<char>) -> bool {
    &&& req.method == HttpMethod::Post
    &&& req.url@ == "https://app.crowdmark.com/api/v2/student/assignment-pages"@
    &&& req.with_csrf
    &&& req.body matches Some(b) && register_page_body_ok(b, number, filename, uuid, question_id)
}

/// Everything one page upload needs: the resolved question, the policy
/// request for its presigned target, and the registration request that
/// binds the uploaded object to the question.
#[derive(Debug)]
pub struct PagePlan {
    pub question_id: String,
    pub uuid: String,
    pub policy: PolicyRequest,
    pub register: ApiRequest,
}

/// A page plan built for ordinal `page_index` over graph `g`, tagged
/// `uuid`: the question is the one whose sequence number is the 1-based
/// page number, the policy request is tagged with the fresh identifier,
/// and the registration carries the page number, the assignment id as
/// filename, the identifier, the anchor flag, and the question.
pub open spec fn page_plan_ok(p: PagePlan, g: GraphRep, page_index: int, uuid: Seq<char>) -> bool {
    &&& spec_find_question(g.questions, page_index + 1) matches Some(q)
    &&& p.question_id@ == q.id
    &&& p.uuid@ == uuid
    &&& p.policy.url@ == "https://app.crowdmark.com/api/v1/s3_policies"@
    &&& p.policy.form.deep_view() == seq![
        ("enrollment_uuid"@, g.id),
        ("requested_uuid"@, uuid),
        ("original_filename"@, g.id),
        ("content_type"@, "image/jpeg"@),
    ]
    &&& is_register_request(p.register, page_index + 1, g.id, uuid, q.id)
}

/// Plans one page upload under a caller-supplied fresh identifier.  A
/// page whose 1-based number exceeds every declared sequence number is
/// the too-many-pages failure, whatever became of the other pages.
pub fn plan_page_upload(g: &AssessmentGraph, page_index: usize, uuid: &str) -> (r: Result<
    PagePlan,
    CrowdmarkError,
>)
    requires
        page_index < usize::MAX,
        page_index + 1 <= i64::MAX,
    ensures
        match r {
            Ok(p) => page_plan_ok(p, g@, page_index as int, uuid@),
            Err(err) => spec_find_question(g@.questions, page_index + 1) is None && err matches
                CrowdmarkError::TooManyPages,
        },
{
    let question_id = match resolve_question(g, page_index) {
        Ok(id) => id,
        Err(err) => {
            return Err(err);
        },
    };
    let policy = page_policy_request(g.id.as_str(), uuid);
    let number: i64 = (page_index as i64) + 1;
    let body = obj1(
        "data",
        obj3(
            "type",
            jtext("assignment-pages"),
            "attributes",
            obj4(
                "number",
                JsonValue::Int(number),
                "filename",
                jtext(g.id.as_str()),
                "uuid",
                jtext(uuid),
                "is-anchor",
                JsonValue::Bool(true),
            ),
            "relationships",
            obj1(
                "question",
                obj1(
                    "data",
                    obj2(
                        "type",
                        jtext("assignment-questions"),
                        "id",
                        jtext(question_id.as_str()),
                    ),
                ),
            ),
        ),
    );
    let register = ApiRequest {
        method: HttpMethod::Post,
        url: assignment_pages_url().to_owned(),
        body: Some(body),
        with_csrf: true,
    };
    Ok(PagePlan { question_id, uuid: uuid.to_owned(), policy, register })
}

/// Plans one page upload under a freshly drawn random identifier.
pub fn plan_page_upload_fresh(g: &AssessmentGraph, page_index: usize) -> (r: Result<
    PagePlan,
    CrowdmarkError,
>)
    requires
        page_index < usize::MAX,
        page_index + 1 <= i64::MAX,
    ensures
        match r {
            Ok(p) => page_plan_ok(p, g@, page_index as int, p.uuid@) && p.uuid@.len() == 36,
            Err(err) => spec_find_question(g@.questions, page_index + 1) is None && err matches
                CrowdmarkError::TooManyPages,
        },
{
    let uuid = fresh_uuid();
    plan_page_upload(g, page_index, uuid.as_str())
}

/// One manifest entry: an already-registered page as the finalize step
/// reports it, with absent fields defaulted.
#[derive(Clone, Debug)]
pub struct ManifestPage {
    pub id: String,
    pub question_id: String,
    pub filename: String,
    pub uuid: String,
    pub number: i64,
}

/// The mathematical content of a [`ManifestPage`].
pub struct ManifestRep {
    pub id: Seq<char>,
    pub question_id: Seq<char>,
    pub filename: Seq<char>,
    pub uuid: Seq<char>,
    pub number: i64,
}

impl View for ManifestPage {
    type V = ManifestRep;

    open spec fn view(&self) -> ManifestRep {
        ManifestRep {
            id: self.id@,
            question_id: self.question_id@,
            filename: self.filename@,
            uuid: self.uuid@,
            number: self.number,
        }
    }
}

impl DeepView for ManifestPage {
    type V = ManifestRep;

    open spec fn deep_view(&self) -> ManifestRep {
        self@
    }
}

/// The manifest entry one page resource yields: each absent field is
/// defaulted, a missing question link to the empty id and a missing
/// number to zero.
pub open spec fn manifest_of(p: PageRep) -> ManifestRep {
    ManifestRep {
        id: p.id,
        question_id: match p.question_id {
            Some(s) => s,
            None => Seq::<char>::empty(),
        },
        filename: match p.filename {
            Some(s) => s,
            None => Seq::<char>::empty(),
        },
        uuid: match p.uuid {
            Some(s) => s,
            None => Seq::<char>::empty(),
        },
        number: match p.number {
            Some(n) => n,
            None => 0,
        },
    }
}

/// Builds the manifest for finalizing: one entry per page resource of
/// the snapshot, in the platform's existing-page order.
pub fn build_manifest(pages: &Vec<PageEntry>) -> (r: Vec<ManifestPage>)
    ensures
        r.deep_view().len() == pages@.len(),
        forall|i: int|
            0 <= i < pages@.len() ==> r.deep_view()[i] == manifest_of(
                #[trigger] pages.deep_view()[i],
            ),
{
    let mut out: Vec<ManifestPage> = Vec::new();
    let mut i: usize = 0;
    while i < pages.len()
        invariant
            i <= pages@.len(),
            out.deep_view().len() == i,
            forall|p: int|
                0 <= p < i ==> out.deep_view()[p] == manifest_of(
                    #[trigger] pages.deep_view()[p],
                ),
        decreases pages@.len() - i,
    {
        let page = &pages[i];
        let question_id = match &page.question_id {
            Some(s) => s.clone(),
            None => String::new(),
        };
        let filename = match &page.filename {
            Some(s) => s.clone(),
            None => String::new(),
        };
        let uuid = match &page.uuid {
            Some(s) => s.clone(),
            None => String::new(),
        };
        let number: i64 = match page.number {
            Some(n) => n,
            None => 0,
        };
        out.push(ManifestPage { id: page.id.clone(), question_id, filename, uuid, number });
        i = i + 1;
    }
    out
}

/// One manifest entry as the submission body carries it.
pub open spec fn manifest_page_json_ok(v: JsonValue, m: ManifestRep) -> bool {
    &&& v matches JsonValue::Object(fs)
    &&& fs@.len() == 5
    &&& fs@[0].0@ == "id"@
    &&& fs@[0].1 matches JsonValue::Text(id)
    &&& id@ == m.id
    &&& fs@[1].0@ == "question_id"@
    &&& fs@[1].1 matches JsonValue::Text(q)
    &&& q@ == m.question_id
    &&& fs@[2].0@ == "filename"@
    &&& fs@[2].1 matches JsonValue::Text(f)
    &&& f@ == m.filename
    &&& fs@[3].0@ == "uuid"@
    &&& fs@[3].1 matches JsonValue::Text(u)
    &&& u@ == m.uuid
    &&& fs@[4].0@ == "number"@
    &&& fs@[4].1 matches JsonValue::Int(n)
    &&& n == m.number
}

/// The finalize body: the manifest pages in order, and the upload
/// signature.
pub open spec fn submission_body_ok(b: JsonValue, manifest: Seq<ManifestRep>,
    signature: Seq<char>) -> bool {
    &&& b matches JsonValue::Object(top)
    &&& top@.len() == 2
    &&& top@[0].0@ == "pages"@
    &&& top@[0].1 matches JsonValue::List(items)
    &&& items@.len() == manifest.len()
    &&& forall|i: int|
        0 <= i < manifest.len() ==> manifest_page_json_ok(#[trigger] items@[i], manifest[i])
    &&& top@[1].0@ == "signature"@
    &&& top@[1].1 matches JsonValue::Text(s)
    &&& s@ == signature
}

/// A planned request that finalizes one assignment.
pub open spec fn is_submit_request(req: ApiRequest, assignment_id: Seq<char>,
    manifest: Seq<ManifestRep>, signature: Seq<char>) -> bool {
    &&& req.method == HttpMethod::Put
    &&& req.url@ == spec_assignment_url(assignment_id)
    &&& req.with_csrf
    &&& req.body matches Some(b) && submission_body_ok(b, manifest, signature)
}

/// Plans the finalize request: the manifest and the signature, PUT at
/// the assignment.
pub fn submit_request(assignment_id: &str, manifest: &Vec<ManifestPage>, signature: &str) -> (r:
    ApiRequest)
    ensures
        is_submit_request(r, assignment_id@, manifest.deep_view(), signature@),
{
    let mut items: Vec<JsonValue> = Vec::new();
    let mut i: usize = 0;
    while i < manifest.len()
        invariant
            i <= manifest@.len(),
            items@.len() == i,
            forall|p: int|
                0 <= p < i ==> manifest_page_json_ok(
                    #[trigger] items@[p],
                    manifest.deep_view()[p],
                ),
        decreases manifest@.len() - i,
    {
        let m = &manifest[i];
        let entry = obj5(
            "id",
            jtext(m.id.as_str()),
            "question_id",
            jtext(m.question_id.as_str()),
            "filename",
            jtext(m.filename.as_str()),
            "uuid",
            jtext(m.uuid.as_str()),
            "number",
            JsonValue::Int(m.number),
        );
        items.push(entry);
        i = i + 1;
    }
    let body = obj2(
        "pages",
        JsonValue::List(items),
        "signature",
        jtext(signature),
    );
    ApiRequest {
        method: HttpMethod::Put,
        url: crate::text::cat2(
            "https://app.crowdmark.com/api/v2/student/assignments/",
            assignment_id,
        ),
        body: Some(body),
        with_csrf: true,
    }
}

/// Where one submission run stands.  The steps before and after the
/// page fan-out are strictly sequential; the page uploads themselves
/// carry no order.
#[derive(Clone, Copy, Debug, PartialEq, Eq, Structural)]
pub enum SubmissionPhase {
    /// The snapshot is fetched; nothing is changed remotely yet.
    Fetched,
    /// The draft-mode action has been acknowledged.
    Drafted,
    /// Every stale page and question binding has been cleared.
    Cleared,
    /// Every page upload has been registered.
    Uploaded,
    /// The signed manifest has been accepted.
    Submitted,
}

/// One submission run over one fetched snapshot.  The snapshot is
/// immutable for the whole run; the phase only ever advances, and each
/// planning step is available exactly in its phase.
#[derive(Debug)]
pub struct Submission {
    graph: AssessmentGraph,
    phase: SubmissionPhase,
}

impl Submission {
    /// The snapshot this run works on.
    pub closed spec fn spec_graph(&self) -> GraphRep {
        self.graph@
    }

    /// Where this run stands.
    pub closed spec fn spec_phase(&self) -> SubmissionPhase {
        self.phase
    }

    /// Starts a run over a freshly fetched snapshot.
    pub fn new(graph: AssessmentGraph) -> (r: Submission)
        ensures
            r.spec_graph() == graph@,
            r.spec_phase() == SubmissionPhase::Fetched,
    {
        Submission { graph, phase: SubmissionPhase::Fetched }
    }

    /// The snapshot, for the caller's own bookkeeping.
    pub fn graph(&self) -> (r: &AssessmentGraph)
        ensures
            r@ == self.spec_graph(),
    {
        &self.graph
    }

    /// Where this run stands, executably.
    pub fn phase(&self) -> (r: SubmissionPhase)
        ensures
            r == self.spec_phase(),
    {
        self.phase
    }

    /// The draft-mode request, first of the run.
    pub fn draft_request(&self) -> (r: ApiRequest)
        requires
            self.spec_phase() == SubmissionPhase::Fetched,
        ensures
            r.method == HttpMethod::Post,
            r.url@ == spec_draft_url(self.spec_graph().id),
            r.body is None,
            r.with_csrf,
    {
        draft_request(self.graph.id.as_str())
    }

    /// Records the acknowledged draft-mode action.
    pub fn note_drafted(&mut self)
        requires
            old(self).spec_phase() == SubmissionPhase::Fetched,
        ensures
            final(self).spec_graph() == old(self).spec_graph(),
            final(self).spec_phase() == SubmissionPhase::Drafted,
    {
        self.phase = SubmissionPhase::Drafted;
    }

    /// The clearing plan: every stale page and question binding of the
    /// snapshot, each as one patch.  All must succeed; any failure
    /// aborts the run, since a half-cleared assessment cannot safely
    /// take fresh uploads.
    pub fn clear_requests(&self) -> (r: Vec<ApiRequest>)
        requires
            self.spec_phase() == SubmissionPhase::Drafted,
        ensures
            r@.len() == self.spec_graph().pages.len() + self.spec_graph().questions.len(),
            forall|i: int|
                0 <= i < self.spec_graph().pages.len() ==> is_clear_page_request(
                    #[trigger] r@[i],
                    self.spec_graph().pages[i].id,
                ),
            forall|j: int|
                0 <= j < self.spec_graph().questions.len() ==> is_clear_question_request(
                    #[trigger] r@[self.spec_graph().pages.len() + j],
                    self.spec_graph().questions[j].id,
                    self.spec_graph().id,
                ),
    {
        clear_plan(&self.graph)
    }

    /// Records the fully cleared state.
    pub fn note_cleared(&mut self)
        requires
            old(self).spec_phase() == SubmissionPhase::Drafted,
        ensures
            final(self).spec_graph() == old(self).spec_graph(),
            final(self).spec_phase() == SubmissionPhase::Cleared,
    {
        self.phase = SubmissionPhase::Cleared;
    }

    /// Plans one page upload; the pages may be planned and performed in
    /// any order, concurrently.
    pub fn page_plan(&self, page_index: usize) -> (r: Result<PagePlan, CrowdmarkError>)
        requires
            self.spec_phase() == SubmissionPhase::Cleared,
            page_index < usize::MAX,
            page_index + 1 <= i64::MAX,
        ensures
            match r {
                Ok(p) => page_plan_ok(p, self.spec_graph(), page_index as int, p.uuid@)
                    && p.uuid@.len() == 36,
                Err(err) => spec_find_question(self.spec_graph().questions, page_index + 1)
                    is None && err matches CrowdmarkError::TooManyPages,
            },
    {
        plan_page_upload_fresh(&self.graph, page_index)
    }

    /// Records that every page upload was registered.
    pub fn note_uploaded(&mut self)
        requires
            old(self).spec_phase() == SubmissionPhase::Cleared,
        ensures
            final(self).spec_graph() == old(self).spec_graph(),
            final(self).spec_phase() == SubmissionPhase::Uploaded,
    {
        self.phase = SubmissionPhase::Uploaded;
    }

    /// The signature request keying the manifest to the assignment.
    pub fn signature_request(&self) -> (r: PolicyRequest)
        requires
            self.spec_phase() == SubmissionPhase::Uploaded,
        ensures
            r.url@ == "https://app.crowdmark.com/api/v1/s3_policies"@,
            r.form.deep_view() =~= seq![("enrollment_uuid"@, self.spec_graph().id)],
    {
        signature_policy_request(self.graph.id.as_str())
    }

    /// The manifest of the snapshot's pages, in the platform's order.
    pub fn manifest(&self) -> (r: Vec<ManifestPage>)
        requires
            self.spec_phase() == SubmissionPhase::Uploaded,
        ensures
            r.deep_view().len() == self.spec_graph().pages.len(),
            forall|i: int|
                0 <= i < self.spec_graph().pages.len() ==> r.deep_view()[i] == manifest_of(
                    #[trigger] self.spec_graph().pages[i],
                ),
    {
        build_manifest(&self.graph.pages)
    }

    /// The finalize request, last of the run.  Optional: a caller may
    /// stop after the uploads and leave the assessment a draft.
    pub fn finalize_request(&self, manifest: &Vec<ManifestPage>, signature: &str) -> (r:
        ApiRequest)
        requires
            self.spec_phase() == SubmissionPhase::Uploaded,
        ensures
            is_submit_request(r, self.spec_graph().id, manifest.deep_view(), signature@),
    {
        submit_request(self.graph.id.as_str(), manifest, signature)
    }

    /// Records the accepted submission; the run is complete.
    pub fn note_submitted(&mut self)
        requires
            old(self).spec_phase() == SubmissionPhase::Uploaded,
        ensures
            final(self).spec_graph() == old(self).spec_graph(),
            final(self).spec_phase() == SubmissionPhase::Submitted,
    {
        self.phase = SubmissionPhase::Submitted;
    }
}

} // verus!
