use crowdmark::error::CrowdmarkError;
use crowdmark::graph::{decode_graph, resolve_question};
use crowdmark::json::{as_int, as_list, as_text, get, JsonValue};
use crowdmark::submit::{
    build_manifest, clear_plan, decode_upload_signature, decode_upload_target, draft_request,
    page_policy_request, signature_policy_request, storage_upload_form, submit_request,
    HttpMethod, Submission, SubmissionPhase,
};

fn text(s: &str) -> JsonValue {
    JsonValue::Text(s.to_string())
}

fn obj(fields: Vec<(&str, JsonValue)>) -> JsonValue {
    JsonValue::Object(fields.into_iter().map(|(k, v)| (k.to_string(), v)).collect())
}

fn question_entry(id: &str, sequence: i64) -> JsonValue {
    obj(vec![
        ("id", text(id)),
        ("type", text("assignment-questions")),
        ("attributes", obj(vec![("sequence", JsonValue::Int(sequence))])),
    ])
}

fn page_entry(id: &str, number: i64, uuid: &str, question: &str) -> JsonValue {
    obj(vec![
        ("id", text(id)),
        ("type", text("assignment-pages")),
        (
            "attributes",
            obj(vec![
                ("number", JsonValue::Int(number)),
                ("filename", text("doc")),
                ("uuid", text(uuid)),
            ]),
        ),
        (
            "relationships",
            obj(vec![(
                "question",
                obj(vec![("data", obj(vec![("id", text(question))]))]),
            )]),
        ),
    ])
}

fn graph_doc(assignment: &str, included: Vec<JsonValue>) -> JsonValue {
    obj(vec![
        ("data", obj(vec![("id", text(assignment))])),
        ("included", JsonValue::List(included)),
    ])
}

fn path<'a>(v: &'a JsonValue, keys: &[&str]) -> &'a JsonValue {
    let mut cur = v;
    for k in keys {
        cur = get(cur, k).unwrap();
    }
    cur
}

#[test]
fn graph_decoding_splits_pages_and_questions() {
    let doc = graph_doc(
        "a1",
        vec![
            question_entry("q1", 1),
            page_entry("p1", 1, "u1", "q1"),
            question_entry("q2", 2),
        ],
    );
    let g = decode_graph(&doc).unwrap();
    assert_eq!(g.id, "a1");
    assert_eq!(g.pages.len(), 1);
    assert_eq!(g.questions.len(), 2);
    assert_eq!(g.pages[0].id, "p1");
    assert_eq!(g.pages[0].number, Some(1));
    assert_eq!(g.pages[0].uuid.as_deref(), Some("u1"));
    assert_eq!(g.pages[0].question_id.as_deref(), Some("q1"));
    assert_eq!(g.questions[0].id, "q1");
    assert_eq!(g.questions[0].sequence, Some(1));
}

#[test]
fn graph_without_included_set_is_an_invalid_assessment_id() {
    let doc = obj(vec![("data", obj(vec![("id", text("a1"))]))]);
    let err = decode_graph(&doc).unwrap_err();
    assert!(matches!(err, CrowdmarkError::InvalidAssessmentID));
}

#[test]
fn graph_numeric_question_link_is_rendered_in_decimal() {
    let entry = obj(vec![
        ("id", text("p1")),
        ("type", text("assignment-pages")),
        (
            "relationships",
            obj(vec![(
                "question",
                obj(vec![("data", obj(vec![("id", JsonValue::Int(42))]))]),
            )]),
        ),
    ]);
    let g = decode_graph(&graph_doc("a1", vec![entry])).unwrap();
    assert_eq!(g.pages[0].question_id.as_deref(), Some("42"));
}

#[test]
fn pages_resolve_to_questions_by_one_based_sequence() {
    let doc = graph_doc(
        "a1",
        vec![question_entry("q1", 1), question_entry("q2", 2), question_entry("q3", 3)],
    );
    let g = decode_graph(&doc).unwrap();
    assert_eq!(resolve_question(&g, 0).unwrap(), "q1");
    assert_eq!(resolve_question(&g, 1).unwrap(), "q2");
    assert_eq!(resolve_question(&g, 2).unwrap(), "q3");
}

#[test]
fn page_beyond_the_question_count_is_too_many_pages() {
    let doc = graph_doc("a1", vec![question_entry("q1", 1), question_entry("q2", 2)]);
    let g = decode_graph(&doc).unwrap();
    assert!(matches!(resolve_question(&g, 2), Err(CrowdmarkError::TooManyPages)));
    assert_eq!(resolve_question(&g, 1).unwrap(), "q2");
}

#[test]
fn clearing_an_empty_graph_plans_no_requests() {
    let g = decode_graph(&graph_doc("a1", vec![])).unwrap();
    let plan = clear_plan(&g);
    assert_eq!(plan.len(), 0);
}

#[test]
fn clearing_plans_one_patch_per_page_and_question() {
    let doc = graph_doc(
        "a1",
        vec![page_entry("p1", 1, "u1", "q1"), question_entry("q1", 1)],
    );
    let g = decode_graph(&doc).unwrap();
    let plan = clear_plan(&g);
    assert_eq!(plan.len(), 2);

    let page_req = &plan[0];
    assert!(matches!(page_req.method, HttpMethod::Patch));
    assert_eq!(
        page_req.url,
        "https://app.crowdmark.com/api/v2/student/assignment-pages/p1"
    );
    assert!(page_req.with_csrf);
    let body = page_req.body.as_ref().unwrap();
    assert_eq!(
        as_text(path(body, &["data", "id"])).unwrap().as_str(),
        "p1"
    );
    assert_eq!(
        as_text(path(body, &["data", "attributes", "state"])).unwrap().as_str(),
        "pending_delete"
    );
    assert_eq!(
        as_text(path(body, &["data", "relationships", "question", "data", "id"])).unwrap().as_str(),
        ""
    );
    assert_eq!(as_text(path(body, &["data", "type"])).unwrap().as_str(), "assignment-pages");

    let question_req = &plan[1];
    assert!(matches!(question_req.method, HttpMethod::Patch));
    assert_eq!(
        question_req.url,
        "https://app.crowdmark.com/api/v2/student/assignment-questions/q1"
    );
    let body = question_req.body.as_ref().unwrap();
    assert!(matches!(
        path(body, &["data", "relationships", "anchored-to-exam-page", "data"]),
        JsonValue::Null
    ));
    assert_eq!(
        as_text(path(body, &["data", "relationships", "assignment", "data", "id"])).unwrap().as_str(),
        "a1"
    );
}

#[test]
fn upload_target_decoding_takes_the_promised_members() {
    let doc = obj(vec![
        ("bucket", text("https://bucket.example")),
        ("key", text("objects/k1")),
        (
            "fields",
            JsonValue::List(vec![
                JsonValue::List(vec![text("policy"), text("pv")]),
                JsonValue::List(vec![text("signature"), text("sv")]),
            ]),
        ),
    ]);
    let target = decode_upload_target(&doc).unwrap();
    assert_eq!(target.bucket, "https://bucket.example");
    assert_eq!(target.key, "objects/k1");
    assert_eq!(target.fields.len(), 2);
    assert_eq!(target.fields[0].0, "policy");
    assert_eq!(target.fields[0].1, "pv");
}

#[test]
fn upload_target_decoding_rejects_missing_or_malformed_members() {
    let doc = obj(vec![("key", text("k"))]);
    assert!(matches!(decode_upload_target(&doc), Err(CrowdmarkError::S3PolicyError)));

    let doc = obj(vec![
        ("bucket", text("b")),
        ("key", text("k")),
        ("fields", JsonValue::List(vec![JsonValue::List(vec![text("only-name")])])),
    ]);
    assert!(matches!(decode_upload_target(&doc), Err(CrowdmarkError::S3PolicyError)));

    let doc = obj(vec![
        ("bucket", text("b")),
        ("key", text("k")),
        ("fields", JsonValue::List(vec![JsonValue::Int(3)])),
    ]);
    assert!(matches!(decode_upload_target(&doc), Err(CrowdmarkError::S3PolicyError)));
}

#[test]
fn upload_signature_decoding_takes_the_promised_member() {
    let doc = obj(vec![("upload_signature", text("sig-1"))]);
    assert_eq!(decode_upload_signature(&doc).unwrap(), "sig-1");
    let doc = obj(vec![("upload_signature", JsonValue::Int(4))]);
    assert!(matches!(decode_upload_signature(&doc), Err(CrowdmarkError::S3PolicyError)));
}

#[test]
fn storage_form_appends_key_content_type_and_filename() {
    let doc = obj(vec![
        ("bucket", text("b")),
        ("key", text("k1")),
        ("fields", JsonValue::List(vec![JsonValue::List(vec![text("policy"), text("pv")])])),
    ]);
    let target = decode_upload_target(&doc).unwrap();
    let form = storage_upload_form(&target, "a1");
    assert_eq!(form.len(), 4);
    assert_eq!(form[0], ("policy".to_string(), "pv".to_string()));
    assert_eq!(form[1], ("key".to_string(), "k1".to_string()));
    assert_eq!(form[2], ("Content-Type".to_string(), "image/jpeg".to_string()));
    assert_eq!(
        form[3],
        ("x-amz-meta-original-filename".to_string(), "a1".to_string())
    );
}

#[test]
fn policy_requests_carry_the_documented_form_fields() {
    let p = page_policy_request("a1", "u-1");
    assert_eq!(p.url, "https://app.crowdmark.com/api/v1/s3_policies");
    assert_eq!(p.form.len(), 4);
    assert_eq!(p.form[0], ("enrollment_uuid".to_string(), "a1".to_string()));
    assert_eq!(p.form[1], ("requested_uuid".to_string(), "u-1".to_string()));
    assert_eq!(p.form[2], ("original_filename".to_string(), "a1".to_string()));
    assert_eq!(p.form[3], ("content_type".to_string(), "image/jpeg".to_string()));

    let s = signature_policy_request("a1");
    assert_eq!(s.form.len(), 1);
    assert_eq!(s.form[0], ("enrollment_uuid".to_string(), "a1".to_string()));
}

#[test]
fn draft_request_targets_the_assignment_action() {
    let r = draft_request("a7");
    assert!(matches!(r.method, HttpMethod::Post));
    assert_eq!(
        r.url,
        "https://app.crowdmark.com/api/v2/student/assignments/a7/start-drafting"
    );
    assert!(r.body.is_none());
    assert!(r.with_csrf);
}

#[test]
fn three_page_submission_runs_end_to_end() {
    // Fetch: three declared questions, nothing uploaded yet.
    let doc = graph_doc(
        "a1",
        vec![question_entry("q1", 1), question_entry("q2", 2), question_entry("q3", 3)],
    );
    let g = decode_graph(&doc).unwrap();
    let mut run = Submission::new(g);
    assert!(matches!(run.phase(), SubmissionPhase::Fetched));

    let draft = run.draft_request();
    assert_eq!(
        draft.url,
        "https://app.crowdmark.com/api/v2/student/assignments/a1/start-drafting"
    );
    run.note_drafted();

    let clear = run.clear_requests();
    assert_eq!(clear.len(), 3);
    run.note_cleared();

    // One plan per rendered page, in any order; question ids follow the
    // 1-based sequence numbers.
    let mut seen: Vec<String> = Vec::new();
    for index in [2usize, 0, 1] {
        let plan = run.page_plan(index).unwrap();
        assert_eq!(plan.uuid.len(), 36);
        assert_eq!(plan.policy.form[1].1, plan.uuid);
        let body = plan.register.body.as_ref().unwrap();
        assert_eq!(
            as_int(path(body, &["data", "attributes", "number"])).unwrap(),
            (index as i64) + 1
        );
        let qid = as_text(path(body, &["data", "relationships", "question", "data", "id"]))
            .unwrap().clone();
        assert_eq!(qid, plan.question_id);
        seen.push(format!("{}:{}", index, qid));
    }
    seen.sort();
    assert_eq!(seen, vec!["0:q1".to_string(), "1:q2".to_string(), "2:q3".to_string()]);
    assert!(run.page_plan(3).is_err());
    run.note_uploaded();

    // Finalize over the re-registered pages, in the platform's order.
    let refetched = graph_doc(
        "a1",
        vec![
            page_entry("p1", 1, "u1", "q1"),
            page_entry("p2", 2, "u2", "q2"),
            page_entry("p3", 3, "u3", "q3"),
            question_entry("q1", 1),
            question_entry("q2", 2),
            question_entry("q3", 3),
        ],
    );
    let g2 = decode_graph(&refetched).unwrap();
    let mut finalize = Submission::new(g2);
    finalize.note_drafted();
    finalize.note_cleared();
    finalize.note_uploaded();

    let sig_req = finalize.signature_request();
    assert_eq!(sig_req.form[0], ("enrollment_uuid".to_string(), "a1".to_string()));

    let manifest = finalize.manifest();
    assert_eq!(manifest.len(), 3);
    assert_eq!(manifest[0].id, "p1");
    assert_eq!(manifest[1].id, "p2");
    assert_eq!(manifest[2].id, "p3");
    assert_eq!(manifest[0].question_id, "q1");
    assert_eq!(manifest[2].uuid, "u3");
    assert_eq!(manifest[2].number, 3);

    let put = finalize.finalize_request(&manifest, "sig-9");
    assert!(matches!(put.method, HttpMethod::Put));
    assert_eq!(put.url, "https://app.crowdmark.com/api/v2/student/assignments/a1");
    let body = put.body.as_ref().unwrap();
    let pages = as_list(get(body, "pages").unwrap()).unwrap();
    assert_eq!(pages.len(), 3);
    assert_eq!(as_text(get(&pages[0], "id").unwrap()).unwrap().as_str(), "p1");
    assert_eq!(as_text(get(&pages[1], "question_id").unwrap()).unwrap().as_str(), "q2");
    assert_eq!(as_int(get(&pages[2], "number").unwrap()).unwrap(), 3);
    assert_eq!(as_text(get(body, "signature").unwrap()).unwrap().as_str(), "sig-9");
    finalize.note_submitted();
    assert!(matches!(finalize.phase(), SubmissionPhase::Submitted));
}

#[test]
fn manifest_defaults_absent_fields() {
    let entry = obj(vec![("id", text("p1")), ("type", text("assignment-pages"))]);
    let g = decode_graph(&graph_doc("a1", vec![entry])).unwrap();
    let manifest = build_manifest(&g.pages);
    assert_eq!(manifest.len(), 1);
    assert_eq!(manifest[0].id, "p1");
    assert_eq!(manifest[0].question_id, "");
    assert_eq!(manifest[0].filename, "");
    assert_eq!(manifest[0].uuid, "");
    assert_eq!(manifest[0].number, 0);
}

#[test]
fn submit_request_without_pages_still_carries_the_signature() {
    let manifest = build_manifest(&Vec::new());
    let put = submit_request("a1", &manifest, "s");
    let body = put.body.as_ref().unwrap();
    assert_eq!(as_list(get(body, "pages").unwrap()).unwrap().len(), 0);
    assert_eq!(as_text(get(body, "signature").unwrap()).unwrap().as_str(), "s");
}
