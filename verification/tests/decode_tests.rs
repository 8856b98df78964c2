use crowdmark::client::Client;
use crowdmark::decode::{decode_assessments, decode_courses, AssessmentKind};
use crowdmark::error::CrowdmarkError;
use crowdmark::json::JsonValue;
use crowdmark::score::parse_score;

fn text(s: &str) -> JsonValue {
    JsonValue::Text(s.to_string())
}

fn obj(fields: Vec<(&str, JsonValue)>) -> JsonValue {
    JsonValue::Object(fields.into_iter().map(|(k, v)| (k.to_string(), v)).collect())
}

fn course_entry(id: &str, name: &str, count: i64, archived: bool) -> JsonValue {
    let arch_data = if archived {
        obj(vec![("data", obj(vec![]))])
    } else {
        obj(vec![("data", JsonValue::Null)])
    };
    obj(vec![
        ("id", text(id)),
        ("type", text("courses")),
        (
            "attributes",
            obj(vec![("name", text(name)), ("exam-master-count", JsonValue::Int(count))]),
        ),
        ("relationships", obj(vec![("course-archivation", arch_data)])),
    ])
}

fn master_entry(id: &str, title: &str, kind: &str) -> JsonValue {
    obj(vec![
        ("id", text(id)),
        ("type", text("exam-masters")),
        ("attributes", obj(vec![("title", text(title)), ("type", text(kind))])),
    ])
}

fn assignment_entry(id: &str, points: JsonValue, master_id: &str) -> JsonValue {
    obj(vec![
        ("id", text(id)),
        ("type", text("assignments")),
        (
            "attributes",
            obj(vec![
                ("normalized-points", points),
                ("submitted-at", JsonValue::Null),
                ("due", JsonValue::Null),
                ("marks-sent-at", JsonValue::Null),
            ]),
        ),
        (
            "relationships",
            obj(vec![(
                "exam-master",
                obj(vec![("data", obj(vec![("id", text(master_id))]))]),
            )]),
        ),
    ])
}

#[test]
fn course_listing_decodes_two_courses_one_archived() {
    let doc = obj(vec![
        (
            "data",
            JsonValue::List(vec![
                course_entry("c1", "Analysis", 7, true),
                course_entry("c2", "Algebra", 3, false),
            ]),
        ),
        ("included", JsonValue::List(vec![])),
    ]);
    let courses = decode_courses(&doc).unwrap();
    assert_eq!(courses.len(), 2);
    assert_eq!(courses[0].id, "c1");
    assert_eq!(courses[0].name, "Analysis");
    assert_eq!(courses[0].assessment_count, 7);
    assert!(courses[0].archived);
    assert_eq!(courses[1].id, "c2");
    assert!(!courses[1].archived);
    let archived: Vec<bool> = courses.iter().map(|c| c.archived).collect();
    assert_eq!(archived.iter().filter(|a| **a).count(), 1);
    assert_eq!(archived.iter().filter(|a| !**a).count(), 1);
}

#[test]
fn course_listing_rejects_redirect_status() {
    let client = client_fixture();
    let doc = obj(vec![("data", JsonValue::List(vec![])), ("included", JsonValue::List(vec![]))]);
    let err = client.list_courses(302, Some(&doc)).unwrap_err();
    assert!(matches!(err, CrowdmarkError::NotAuthenticated(m) if m == "Could not get courses"));
}

#[test]
fn course_listing_rejects_missing_data_list() {
    let doc = obj(vec![("included", JsonValue::List(vec![]))]);
    let err = decode_courses(&doc).unwrap_err();
    assert!(matches!(err, CrowdmarkError::DecodeError(m) if m == "response without a data list"));
}

#[test]
fn course_entry_without_name_is_a_decode_error() {
    let mut entry = vec![
        ("id", text("c1")),
        ("type", text("courses")),
        ("attributes", obj(vec![("exam-master-count", JsonValue::Int(1))])),
    ];
    entry.push(("relationships", obj(vec![("course-archivation", obj(vec![]))])));
    let doc = obj(vec![
        ("data", JsonValue::List(vec![obj(entry.into_iter().map(|(k, v)| (k, v)).collect())])),
        ("included", JsonValue::List(vec![])),
    ]);
    let err = decode_courses(&doc).unwrap_err();
    assert!(matches!(err, CrowdmarkError::DecodeError(m) if m == "course entry without a name"));
}

fn client_fixture() -> Client {
    Client::new("tok", "<meta name=\"csrf-token\" content=\"abc\">").unwrap()
}

#[test]
fn assessment_listing_joins_masters_and_maps_kinds() {
    let doc = obj(vec![
        (
            "data",
            JsonValue::List(vec![
                assignment_entry("a1", JsonValue::Int(0), "m1"),
                assignment_entry("a2", text("87.5"), "m2"),
            ]),
        ),
        (
            "included",
            JsonValue::List(vec![
                master_entry("m1", "Midterm", "ExamMaster::AtHome"),
                master_entry("m2", "Final", "ExamMaster::Proctored"),
            ]),
        ),
    ]);
    let list = decode_assessments(&doc).unwrap();
    assert_eq!(list.len(), 2);
    assert_eq!(list[0].id, "m1");
    assert_eq!(list[0].title, "Midterm");
    assert!(matches!(list[0].kind, AssessmentKind::TakeHome));
    assert_eq!(list[0].score, None);
    assert_eq!(list[1].id, "m2");
    assert_eq!(list[1].title, "Final");
    assert!(matches!(list[1].kind, AssessmentKind::Proctored));
    assert_eq!(list[1].score, Some(875_000));
}

#[test]
fn dangling_master_reference_names_the_missing_id() {
    let doc = obj(vec![
        ("data", JsonValue::List(vec![assignment_entry("a1", JsonValue::Int(0), "m9")])),
        ("included", JsonValue::List(vec![master_entry("m1", "Midterm", "ExamMaster::AtHome")])),
    ]);
    let err = decode_assessments(&doc).unwrap_err();
    assert!(matches!(err, CrowdmarkError::DecodeError(m) if m == "Missing exam_master for id m9"));
}

#[test]
fn repeated_master_id_is_overwritten_by_the_later_entry() {
    let doc = obj(vec![
        ("data", JsonValue::List(vec![assignment_entry("a1", JsonValue::Int(0), "m1")])),
        (
            "included",
            JsonValue::List(vec![
                master_entry("m1", "Old", "ExamMaster::AtHome"),
                master_entry("m1", "New", "ExamMaster::Proctored"),
            ]),
        ),
    ]);
    let list = decode_assessments(&doc).unwrap();
    assert_eq!(list[0].title, "New");
}

#[test]
fn absent_included_set_is_an_invalid_course_id() {
    let doc = obj(vec![("data", JsonValue::List(vec![]))]);
    let err = decode_assessments(&doc).unwrap_err();
    assert!(matches!(err, CrowdmarkError::InvalidCourseID));
}

#[test]
fn empty_included_set_is_an_invalid_course_id_not_an_empty_list() {
    let doc = obj(vec![
        ("data", JsonValue::List(vec![assignment_entry("a1", JsonValue::Int(0), "m1")])),
        ("included", JsonValue::List(vec![])),
    ]);
    let err = decode_assessments(&doc).unwrap_err();
    assert!(matches!(err, CrowdmarkError::InvalidCourseID));
}

#[test]
fn assessment_listing_rejects_redirect_status() {
    let client = client_fixture();
    let err = client.list_assessments(302, None).unwrap_err();
    assert!(
        matches!(err, CrowdmarkError::NotAuthenticated(m) if m == "Could not get assessments")
    );
}

#[test]
fn unparseable_body_is_a_decode_error() {
    let client = client_fixture();
    let err = client.list_assessments(200, None).unwrap_err();
    assert!(matches!(err, CrowdmarkError::DecodeError(m) if m == "response body is not JSON"));
}

#[test]
fn zero_literal_normalized_points_means_no_score() {
    let doc = obj(vec![
        ("data", JsonValue::List(vec![assignment_entry("a1", JsonValue::Int(0), "m1")])),
        ("included", JsonValue::List(vec![master_entry("m1", "Quiz", "ExamMaster::AtHome")])),
    ]);
    let list = decode_assessments(&doc).unwrap();
    assert_eq!(list[0].score, None);
}

#[test]
fn string_normalized_points_becomes_a_score_fraction() {
    let doc = obj(vec![
        ("data", JsonValue::List(vec![assignment_entry("a1", text("87.5"), "m1")])),
        ("included", JsonValue::List(vec![master_entry("m1", "Quiz", "ExamMaster::AtHome")])),
    ]);
    let list = decode_assessments(&doc).unwrap();
    assert_eq!(list[0].score, Some(875_000));
}

#[test]
fn non_numeric_normalized_points_fails_decoding() {
    let doc = obj(vec![
        ("data", JsonValue::List(vec![assignment_entry("a1", text("high"), "m1")])),
        ("included", JsonValue::List(vec![master_entry("m1", "Quiz", "ExamMaster::AtHome")])),
    ]);
    let err = decode_assessments(&doc).unwrap_err();
    assert!(matches!(err, CrowdmarkError::DecodeError(m)
        if m == "invalid normalized-points value: high"));
}

#[test]
fn score_parsing_covers_the_declared_convention() {
    assert_eq!(parse_score("87.5").unwrap(), 875_000);
    assert_eq!(parse_score("100").unwrap(), 1_000_000);
    assert_eq!(parse_score("0").unwrap(), 0);
    assert_eq!(parse_score("0.0001").unwrap(), 1);
    assert_eq!(parse_score("12.34567").unwrap(), 123_456);
    assert!(parse_score("").is_err());
    assert!(parse_score("12.").is_err());
    assert!(parse_score(".5").is_err());
    assert!(parse_score("-1").is_err());
    assert!(parse_score("101").is_err());
    assert!(parse_score("1e2").is_err());
}

#[test]
fn timestamps_are_decoded_to_epoch_milliseconds() {
    let mut entry = assignment_entry("a1", JsonValue::Int(0), "m1");
    if let JsonValue::Object(ref mut fields) = entry {
        for f in fields.iter_mut() {
            if f.0 == "attributes" {
                if let JsonValue::Object(ref mut attrs) = f.1 {
                    for a in attrs.iter_mut() {
                        if a.0 == "due" {
                            a.1 = text("2024-01-01T00:00:00Z");
                        }
                    }
                }
            }
        }
    }
    let doc = obj(vec![
        ("data", JsonValue::List(vec![entry])),
        ("included", JsonValue::List(vec![master_entry("m1", "Quiz", "ExamMaster::AtHome")])),
    ]);
    let list = decode_assessments(&doc).unwrap();
    assert_eq!(list[0].due, Some(1_704_067_200_000));
    assert_eq!(list[0].submitted, None);
    assert_eq!(list[0].graded, None);
}

#[test]
fn invalid_timestamp_fails_decoding() {
    let mut entry = assignment_entry("a1", JsonValue::Int(0), "m1");
    if let JsonValue::Object(ref mut fields) = entry {
        for f in fields.iter_mut() {
            if f.0 == "attributes" {
                if let JsonValue::Object(ref mut attrs) = f.1 {
                    for a in attrs.iter_mut() {
                        if a.0 == "submitted-at" {
                            a.1 = text("yesterday");
                        }
                    }
                }
            }
        }
    }
    let doc = obj(vec![
        ("data", JsonValue::List(vec![entry])),
        ("included", JsonValue::List(vec![master_entry("m1", "Quiz", "ExamMaster::AtHome")])),
    ]);
    let err = decode_assessments(&doc).unwrap_err();
    assert!(matches!(err, CrowdmarkError::DecodeError(m) if m == "invalid timestamp: yesterday"));
}

#[test]
fn plain_listing_lines_are_tab_joined() {
    let doc = obj(vec![
        ("data", JsonValue::List(vec![course_entry("c1", "Analysis", 7, false)])),
        ("included", JsonValue::List(vec![])),
    ]);
    let courses = decode_courses(&doc).unwrap();
    assert_eq!(courses[0].plain_line(), "c1\tAnalysis");

    let doc = obj(vec![
        ("data", JsonValue::List(vec![assignment_entry("a1", JsonValue::Int(0), "m1")])),
        ("included", JsonValue::List(vec![master_entry("m1", "Quiz", "ExamMaster::AtHome")])),
    ]);
    let list = decode_assessments(&doc).unwrap();
    assert_eq!(list[0].plain_line(), "m1\tQuiz");
}

#[test]
fn error_descriptions_name_each_failure() {
    assert_eq!(CrowdmarkError::InvalidHeaderValue.describe(), "Invalid header value");
    assert_eq!(CrowdmarkError::InvalidCourseID.describe(), "Invalid course ID");
    assert_eq!(CrowdmarkError::InvalidAssessmentID.describe(), "Invalid assessment ID");
    assert_eq!(CrowdmarkError::TooManyPages.describe(), "Too many pages submitted");
    assert_eq!(CrowdmarkError::S3PolicyError.describe(), "Invalid S3 Policy Response");
    assert_eq!(CrowdmarkError::Transport("x".to_string()).describe(), "Request error");
    assert_eq!(CrowdmarkError::DecodeError("x".to_string()).describe(), "JSON error");
}
