//! The resource-graph decoder.
//!
//! The platform answers read requests with one relational shape: a
//! primary list under `data`, a side list of related resources under
//! `included`, and relationship blocks holding id pointers between the
//! two.  The functions here turn such a document into typed domain
//! values, resolving every pointer and rejecting — never defaulting —
//! anything malformed or dangling.

use crate::error::CrowdmarkError;
use crate::json::{
    as_int, as_list, as_text, get, get1, get2, get3, int_of, list_of, step, str_eq, text_of,
    JsonValue,
};
use crate::outside::rfc3339_millis_of;
use crate::score::{parse_score, score_error_text, spec_score_ppm};
use crate::text::cat2;
use vstd::prelude::*;

verus! {

/// One course, as the listing returns it.
#[derive(Clone, Debug)]
pub struct Course {
    pub id: String,
    pub name: String,
    pub archived: bool,
    pub assessment_count: usize,
}

/// The mathematical content of a [`Course`].
pub struct CourseRep {
    pub id: Seq<char>,
    pub name: Seq<char>,
    pub archived: bool,
    pub assessment_count: int,
}

impl View for Course {
    type V = CourseRep;

    open spec fn view(&self) -> CourseRep {
        CourseRep {
            id: self.id@,
            name: self.name@,
            archived: self.archived,
            assessment_count: self.assessment_count as int,
        }
    }
}

impl DeepView for Course {
    type V = CourseRep;

    open spec fn deep_view(&self) -> CourseRep {
        self@
    }
}

impl Course {
    /// The course's line in a plain listing: id and name, tab-joined.
    pub fn plain_line(&self) -> (r: String)
        ensures
            r@ == self.id@ + "\t"@ + self.name@,
    {
        crate::text::cat3(self.id.as_str(), "\t", self.name.as_str())
    }
}

/// What a course entry decodes to: its content, or the message of the
/// decode error it raises.
pub open spec fn spec_course_entry(e: JsonValue) -> Result<CourseRep, Seq<char>> {
    if text_of(get1(e, "id"@)) is None {
        Err("course entry without an id"@)
    } else if text_of(get1(e, "type"@)) != Some("courses"@) {
        Err("unknown resource type in data"@)
    } else if text_of(get2(e, "attributes"@, "name"@)) is None {
        Err("course entry without a name"@)
    } else if int_of(get2(e, "attributes"@, "exam-master-count"@)) is None {
        Err("course entry without an assessment count"@)
    } else if !(0 <= int_of(get2(e, "attributes"@, "exam-master-count"@))->0 <= usize::MAX) {
        Err("course entry without an assessment count"@)
    } else if get2(e, "relationships"@, "course-archivation"@) is None {
        Err("course entry without an archivation relationship"@)
    } else {
        let arch = step(get2(e, "relationships"@, "course-archivation"@), "data"@);
        match arch {
            None => Ok(
                CourseRep {
                    id: text_of(get1(e, "id"@))->0,
                    name: text_of(get2(e, "attributes"@, "name"@))->0,
                    archived: false,
                    assessment_count: int_of(get2(e, "attributes"@, "exam-master-count"@))->0 as int,
                },
            ),
            Some(JsonValue::Null) => Ok(
                CourseRep {
                    id: text_of(get1(e, "id"@))->0,
                    name: text_of(get2(e, "attributes"@, "name"@))->0,
                    archived: false,
                    assessment_count: int_of(get2(e, "attributes"@, "exam-master-count"@))->0 as int,
                },
            ),
            Some(JsonValue::Object(_)) => Ok(
                CourseRep {
                    id: text_of(get1(e, "id"@))->0,
                    name: text_of(get2(e, "attributes"@, "name"@))->0,
                    archived: true,
                    assessment_count: int_of(get2(e, "attributes"@, "exam-master-count"@))->0 as int,
                },
            ),
            Some(_) => Err("course archivation is neither absent nor an object"@),
        }
    }
}

/// What a list of course entries decodes to: one course per entry in
/// order, or the leftmost entry's decode error.
pub open spec fn spec_course_list(entries: Seq<JsonValue>) -> Result<Seq<CourseRep>, Seq<char>>
    decreases entries.len(),
{
    if entries.len() == 0 {
        Ok(Seq::<CourseRep>::empty())
    } else {
        match spec_course_list(entries.drop_last()) {
            Err(m) => Err(m),
            Ok(rest) => match spec_course_entry(entries.last()) {
                Err(m) => Err(m),
                Ok(c) => Ok(rest.push(c)),
            },
        }
    }
}

/// What a whole course document decodes to.  The envelope must carry an
/// included list — the platform always sends one for this listing —
/// though the course listing reads nothing from its entries.
pub open spec fn spec_courses_outcome(doc: JsonValue) -> Result<Seq<CourseRep>, Seq<char>> {
    if list_of(get1(doc, "data"@)) is None {
        Err("response without a data list"@)
    } else if list_of(get1(doc, "included"@)) is None {
        Err("response without an included list"@)
    } else {
        spec_course_list(list_of(get1(doc, "data"@))->0)
    }
}

/// A prefix that already fails to decode decides the whole list.
proof fn lemma_course_list_error_persists(entries: Seq<JsonValue>, i: int)
    requires
        0 <= i <= entries.len(),
        spec_course_list(entries.take(i)) is Err,
    ensures
        spec_course_list(entries) == spec_course_list(entries.take(i)),
    decreases entries.len() - i,
{
    if i < entries.len() {
        assert(entries.take(i + 1).drop_last() =~= entries.take(i));
        lemma_course_list_error_persists(entries, i + 1);
    } else {
        assert(entries.take(i) =~= entries);
    }
}

/// Decodes one course entry.
fn decode_course_entry(e: &JsonValue) -> (r: Result<Course, CrowdmarkError>)
    ensures
        match r {
            Ok(c) => spec_course_entry(*e) == Ok::<CourseRep, Seq<char>>(c@),
            Err(err) => spec_course_entry(*e) matches Err(m) && (err matches
                CrowdmarkError::DecodeError(t) && t@ == m),
        },
{
    let id = match get(e, "id") {
        Some(v) => match as_text(v) {
            Some(s) => s,
            None => {
                return Err(
                    CrowdmarkError::DecodeError("course entry without an id".to_owned()),
                );
            },
        },
        None => {
            return Err(CrowdmarkError::DecodeError("course entry without an id".to_owned()));
        },
    };
    let type_ok = match get(e, "type") {
        Some(v) => match as_text(v) {
            Some(s) => str_eq(s.as_str(), "courses"),
            None => false,
        },
        None => false,
    };
    if !type_ok {
        return Err(CrowdmarkError::DecodeError("unknown resource type in data".to_owned()));
    }
    let attrs = match get(e, "attributes") {
        Some(v) => v,
        None => {
            return Err(
                CrowdmarkError::DecodeError("course entry without a name".to_owned()),
            );
        },
    };
    let name = match get(attrs, "name") {
        Some(v) => match as_text(v) {
            Some(s) => s,
            None => {
                return Err(
                    CrowdmarkError::DecodeError("course entry without a name".to_owned()),
                );
            },
        },
        None => {
            return Err(CrowdmarkError::DecodeError("course entry without a name".to_owned()));
        },
    };
    let count_err = "course entry without an assessment count";
    let count = match get(attrs, "exam-master-count") {
        Some(v) => match as_int(v) {
            Some(i) => i,
            None => {
                return Err(CrowdmarkError::DecodeError(count_err.to_owned()));
            },
        },
        None => {
            return Err(CrowdmarkError::DecodeError(count_err.to_owned()));
        },
    };
    if count < 0 {
        return Err(CrowdmarkError::DecodeError(count_err.to_owned()));
    }
    if (count as u64) > (usize::MAX as u64) {
        return Err(CrowdmarkError::DecodeError(count_err.to_owned()));
    }
    let rels = match get(e, "relationships") {
        Some(v) => v,
        None => {
            return Err(
                CrowdmarkError::DecodeError(
                    "course entry without an archivation relationship".to_owned(),
                ),
            );
        },
    };
    let arch = match get(rels, "course-archivation") {
        Some(v) => v,
        None => {
            return Err(
                CrowdmarkError::DecodeError(
                    "course entry without an archivation relationship".to_owned(),
                ),
            );
        },
    };
    let archived = match get(arch, "data") {
        None => false,
        Some(JsonValue::Null) => false,
        Some(JsonValue::Object(_)) => true,
        Some(_) => {
            return Err(
                CrowdmarkError::DecodeError(
                    "course archivation is neither absent nor an object".to_owned(),
                ),
            );
        },
    };
    Ok(
        Course {
            id: id.clone(),
            name: name.clone(),
            archived,
            assessment_count: count as usize,
        },
    )
}

/// Decodes a whole course document: one course per `data` entry, in the
/// entries' order.
pub fn decode_courses(doc: &JsonValue) -> (r: Result<Vec<Course>, CrowdmarkError>)
    ensures
        match r {
            Ok(cs) => spec_courses_outcome(*doc) == Ok::<Seq<CourseRep>, Seq<char>>(
                cs.deep_view(),
            ),
            Err(err) => spec_courses_outcome(*doc) matches Err(m) && (err matches
                CrowdmarkError::DecodeError(t) && t@ == m),
        },
{
    let entries = match get(doc, "data") {
        Some(v) => match as_list(v) {
            Some(items) => items,
            None => {
                return Err(
                    CrowdmarkError::DecodeError("response without a data list".to_owned()),
                );
            },
        },
        None => {
            return Err(
                CrowdmarkError::DecodeError("response without a data list".to_owned()),
            );
        },
    };
    let included_ok = match get(doc, "included") {
        Some(v) => match as_list(v) {
            Some(_) => true,
            None => false,
        },
        None => false,
    };
    if !included_ok {
        return Err(
            CrowdmarkError::DecodeError("response without an included list".to_owned()),
        );
    }
    let mut out: Vec<Course> = Vec::new();
    let mut i: usize = 0;
    proof {
        assert(entries@.take(0) =~= Seq::<JsonValue>::empty());
        assert(out.deep_view() =~= Seq::<CourseRep>::empty());
    }
    while i < entries.len()
        invariant
            i <= entries.len(),
            spec_courses_outcome(*doc) == spec_course_list(entries@),
            spec_course_list(entries@.take(i as int)) == Ok::<Seq<CourseRep>, Seq<char>>(
                out.deep_view(),
            ),
        decreases entries.len() - i,
    {
        let ghost prefix = entries@.take(i as int);
        match decode_course_entry(&entries[i]) {
            Ok(c) => {
                out.push(c);
                proof {
                    assert(entries@.take(i as int + 1).drop_last() =~= prefix);
                    assert(entries@.take(i as int + 1).last() == entries@[i as int]);
                    assert(out.deep_view() =~= spec_course_list(
                        entries@.take(i as int + 1),
                    )->Ok_0);
                }
            },
            Err(err) => {
                proof {
                    assert(entries@.take(i as int + 1).drop_last() =~= prefix);
                    assert(entries@.take(i as int + 1).last() == entries@[i as int]);
                    lemma_course_list_error_persists(entries@, i as int + 1);
                }
                return Err(err);
            },
        }
        i = i + 1;
    }
    proof {
        assert(entries@.take(i as int) =~= entries@);
    }
    Ok(out)
}

/// Whether an assessment is worked at home or in a proctored sitting.
#[derive(Clone, Copy, Debug, PartialEq, Eq, Structural)]
pub enum AssessmentKind {
    TakeHome,
    Proctored,
}

/// One assessment, as the listing returns it.  Timestamps are in
/// non-leap milliseconds since the Unix epoch; a present score is in
/// parts per million of the full mark.
#[derive(Clone, Debug)]
pub struct Assessment {
    pub id: String,
    pub title: String,
    pub kind: AssessmentKind,
    pub due: Option<i64>,
    pub submitted: Option<i64>,
    pub graded: Option<i64>,
    pub score: Option<u32>,
}

/// The mathematical content of an [`Assessment`].
pub struct AssessmentRep {
    pub id: Seq<char>,
    pub title: Seq<char>,
    pub kind: AssessmentKind,
    pub due: Option<i64>,
    pub submitted: Option<i64>,
    pub graded: Option<i64>,
    pub score: Option<u32>,
}

impl View for Assessment {
    type V = AssessmentRep;

    open spec fn view(&self) -> AssessmentRep {
        AssessmentRep {
            id: self.id@,
            title: self.title@,
            kind: self.kind,
            due: self.due,
            submitted: self.submitted,
            graded: self.graded,
            score: self.score,
        }
    }
}

impl DeepView for Assessment {
    type V = AssessmentRep;

    open spec fn deep_view(&self) -> AssessmentRep {
        self@
    }
}

impl Assessment {
    /// The assessment's line in a plain listing: id and title,
    /// tab-joined.
    pub fn plain_line(&self) -> (r: String)
        ensures
            r@ == self.id@ + "\t"@ + self.title@,
    {
        crate::text::cat3(self.id.as_str(), "\t", self.title.as_str())
    }
}

/// An exam-master resource from the included set.
struct Master {
    id: String,
    title: String,
    kind: AssessmentKind,
}

/// The mathematical content of a [`Master`].
pub struct MasterRep {
    pub id: Seq<char>,
    pub title: Seq<char>,
    pub kind: AssessmentKind,
}

impl View for Master {
    type V = MasterRep;

    closed spec fn view(&self) -> MasterRep {
        MasterRep { id: self.id@, title: self.title@, kind: self.kind }
    }
}

impl DeepView for Master {
    type V = MasterRep;

    closed spec fn deep_view(&self) -> MasterRep {
        self@
    }
}

/// What an included entry decodes to: an exam master, or the message of
/// the decode error it raises.
pub open spec fn spec_master_entry(e: JsonValue) -> Result<MasterRep, Seq<char>> {
    if text_of(get1(e, "id"@)) is None {
        Err("included entry without an id"@)
    } else if text_of(get1(e, "type"@)) != Some("exam-masters"@) {
        Err("unknown resource type in included"@)
    } else if text_of(get2(e, "attributes"@, "title"@)) is None {
        Err("exam-master without a title"@)
    } else if text_of(get2(e, "attributes"@, "type"@)) == Some("ExamMaster::AtHome"@) {
        Ok(
            MasterRep {
                id: text_of(get1(e, "id"@))->0,
                title: text_of(get2(e, "attributes"@, "title"@))->0,
                kind: AssessmentKind::TakeHome,
            },
        )
    } else if text_of(get2(e, "attributes"@, "type"@)) == Some("ExamMaster::Proctored"@) {
        Ok(
            MasterRep {
                id: text_of(get1(e, "id"@))->0,
                title: text_of(get2(e, "attributes"@, "title"@))->0,
                kind: AssessmentKind::Proctored,
            },
        )
    } else {
        Err("exam-master with an unknown kind"@)
    }
}

/// What the included list decodes to, in order.
pub open spec fn spec_master_list(entries: Seq<JsonValue>) -> Result<Seq<MasterRep>, Seq<char>>
    decreases entries.len(),
{
    if entries.len() == 0 {
        Ok(Seq::<MasterRep>::empty())
    } else {
        match spec_master_list(entries.drop_last()) {
            Err(m) => Err(m),
            Ok(rest) => match spec_master_entry(entries.last()) {
                Err(m) => Err(m),
                Ok(c) => Ok(rest.push(c)),
            },
        }
    }
}

/// The exam master a relationship id resolves to: the last one carrying
/// that id, so that a repeated id is overwritten by its later entry.
pub open spec fn spec_find_master(ms: Seq<MasterRep>, id: Seq<char>) -> Option<MasterRep>
    decreases ms.len(),
{
    if ms.len() == 0 {
        None
    } else if ms.last().id == id {
        Some(ms.last())
    } else {
        spec_find_master(ms.drop_last(), id)
    }
}

/// What an optional timestamp attribute decodes to: absent or null is
/// no timestamp; a string must name an RFC 3339 instant.
pub open spec fn spec_ts_field(e: JsonValue, name: Seq<char>) -> Result<Option<i64>, Seq<char>> {
    match get2(e, "attributes"@, name) {
        None => Ok(None),
        Some(JsonValue::Null) => Ok(None),
        Some(JsonValue::Text(s)) => match rfc3339_millis_of(s@) {
            Some(t) => Ok(Some(t)),
            None => Err("invalid timestamp: "@ + s@),
        },
        Some(_) => Err("timestamp is not a string"@),
    }
}

/// What the normalized-points attribute decodes to: an integer literal
/// is the absent-score sentinel, a string is a percentage.
pub open spec fn spec_score_field(e: JsonValue) -> Result<Option<u32>, Seq<char>> {
    match get2(e, "attributes"@, "normalized-points"@) {
        None => Err("assessment without a normalized-points value"@),
        Some(JsonValue::Int(i)) => if i >= 0 {
            Ok(None)
        } else {
            Err("negative normalized-points value"@)
        },
        Some(JsonValue::Text(s)) => match spec_score_ppm(s@) {
            Some(v) => Ok(Some(v as u32)),
            None => Err(score_error_text(s@)),
        },
        Some(_) => Err("normalized-points is neither a number nor a string"@),
    }
}

/// What an assessment entry decodes to against a decoded included set:
/// the joined assessment, or the message of the decode error it raises.
pub open spec fn spec_assessment_entry(e: JsonValue, ms: Seq<MasterRep>) -> Result<
    AssessmentRep,
    Seq<char>,
> {
    if text_of(get1(e, "id"@)) is None {
        Err("assessment entry without an id"@)
    } else if text_of(get1(e, "type"@)) != Some("assignments"@) {
        Err("unknown resource type in data"@)
    } else {
        match spec_score_field(e) {
            Err(m) => Err(m),
            Ok(score) => match spec_ts_field(e, "submitted-at"@) {
                Err(m) => Err(m),
                Ok(submitted) => match spec_ts_field(e, "due"@) {
                    Err(m) => Err(m),
                    Ok(due) => match spec_ts_field(e, "marks-sent-at"@) {
                        Err(m) => Err(m),
                        Ok(graded) => {
                            let rel = text_of(
                                step(get3(e, "relationships"@, "exam-master"@, "data"@), "id"@),
                            );
                            if rel is None {
                                Err("assessment without an exam-master relationship"@)
                            } else {
                                match spec_find_master(ms, rel->0) {
                                    None => Err("Missing exam_master for id "@ + rel->0),
                                    Some(master) => Ok(
                                        AssessmentRep {
                                            id: rel->0,
                                            title: master.title,
                                            kind: master.kind,
                                            due,
                                            submitted,
                                            graded,
                                            score,
                                        },
                                    ),
                                }
                            }
                        },
                    },
                },
            },
        }
    }
}

/// What a list of assessment entries decodes to.
pub open spec fn spec_assessment_list(entries: Seq<JsonValue>, ms: Seq<MasterRep>) -> Result<
    Seq<AssessmentRep>,
    Seq<char>,
>
    decreases entries.len(),
{
    if entries.len() == 0 {
        Ok(Seq::<AssessmentRep>::empty())
    } else {
        match spec_assessment_list(entries.drop_last(), ms) {
            Err(m) => Err(m),
            Ok(rest) => match spec_assessment_entry(entries.last(), ms) {
                Err(m) => Err(m),
                Ok(c) => Ok(rest.push(c)),
            },
        }
    }
}

/// The exam-master relationship id an assessment entry points at.
pub open spec fn spec_rel_id(e: JsonValue) -> Option<Seq<char>> {
    text_of(step(get3(e, "relationships"@, "exam-master"@, "data"@), "id"@))
}

/// A dangling relationship is never resolved silently: an assessment
/// entry decodes successfully only when its exam-master pointer names
/// an id the included set carries.  No default entity is fabricated.
pub proof fn lemma_no_fabricated_join(e: JsonValue, ms: Seq<MasterRep>)
    ensures
        spec_assessment_entry(e, ms) is Ok ==> spec_rel_id(e) is Some && spec_find_master(
            ms,
            spec_rel_id(e)->0,
        ) is Some,
{
}

/// An entry whose fields all decode but whose exam-master pointer names
/// an id absent from the included set always fails with the decode
/// error naming that missing id.
pub proof fn lemma_dangling_reference_fails(e: JsonValue, ms: Seq<MasterRep>)
    requires
        text_of(get1(e, "id"@)) is Some,
        text_of(get1(e, "type"@)) == Some("assignments"@),
        spec_score_field(e) is Ok,
        spec_ts_field(e, "submitted-at"@) is Ok,
        spec_ts_field(e, "due"@) is Ok,
        spec_ts_field(e, "marks-sent-at"@) is Ok,
        spec_rel_id(e) is Some,
        spec_find_master(ms, spec_rel_id(e)->0) is None,
    ensures
        spec_assessment_entry(e, ms) == Err::<AssessmentRep, Seq<char>>(
            "Missing exam_master for id "@ + spec_rel_id(e)->0,
        ),
{
}

/// Why an assessment listing is refused.
pub enum AssessmentFailure {
    /// The platform answered the valid-but-empty envelope it uses for an
    /// unknown course id: no usable included set.
    InvalidCourse,
    /// The document is malformed, with the decode error's message.
    Decode(Seq<char>),
}

/// What a whole assessment document decodes to.
pub open spec fn spec_assessments_outcome(doc: JsonValue) -> Result<
    Seq<AssessmentRep>,
    AssessmentFailure,
> {
    let inc = get1(doc, "included"@);
    if inc is None {
        Err(AssessmentFailure::InvalidCourse)
    } else if list_of(inc) is None {
        Err(AssessmentFailure::Decode("included is not a list"@))
    } else if list_of(inc)->0.len() == 0 {
        Err(AssessmentFailure::InvalidCourse)
    } else {
        match spec_master_list(list_of(inc)->0) {
            Err(m) => Err(AssessmentFailure::Decode(m)),
            Ok(ms) => if list_of(get1(doc, "data"@)) is None {
                Err(AssessmentFailure::Decode("response without a data list"@))
            } else {
                match spec_assessment_list(list_of(get1(doc, "data"@))->0, ms) {
                    Err(m) => Err(AssessmentFailure::Decode(m)),
                    Ok(list) => Ok(list),
                }
            },
        }
    }
}

/// A listing answer whose included set is absent or empty is the
/// unknown-course failure, never an empty success list.
pub proof fn lemma_empty_included_is_invalid_course(doc: JsonValue)
    requires
        get1(doc, "included"@) is None || list_of(get1(doc, "included"@)) == Some(
            Seq::<JsonValue>::empty(),
        ),
    ensures
        spec_assessments_outcome(doc) == Err::<Seq<AssessmentRep>, AssessmentFailure>(
            AssessmentFailure::InvalidCourse,
        ),
{
}

/// A prefix that already fails to decode decides the whole master list.
proof fn lemma_master_list_error_persists(entries: Seq<JsonValue>, i: int)
    requires
        0 <= i <= entries.len(),
        spec_master_list(entries.take(i)) is Err,
    ensures
        spec_master_list(entries) == spec_master_list(entries.take(i)),
    decreases entries.len() - i,
{
    if i < entries.len() {
        assert(entries.take(i + 1).drop_last() =~= entries.take(i));
        lemma_master_list_error_persists(entries, i + 1);
    } else {
        assert(entries.take(i) =~= entries);
    }
}

/// A prefix that already fails to decode decides the whole assessment
/// list.
proof fn lemma_assessment_list_error_persists(entries: Seq<JsonValue>, ms: Seq<MasterRep>, i: int)
    requires
        0 <= i <= entries.len(),
        spec_assessment_list(entries.take(i), ms) is Err,
    ensures
        spec_assessment_list(entries, ms) == spec_assessment_list(entries.take(i), ms),
    decreases entries.len() - i,
{
    if i < entries.len() {
        assert(entries.take(i + 1).drop_last() =~= entries.take(i));
        lemma_assessment_list_error_persists(entries, ms, i + 1);
    } else {
        assert(entries.take(i) =~= entries);
    }
}

fn decode_error(msg: &str) -> (r: CrowdmarkError)
    ensures
        r matches CrowdmarkError::DecodeError(t) && t@ == msg@,
{
    CrowdmarkError::DecodeError(msg.to_owned())
}

/// Decodes one included entry into an exam master.
fn decode_master_entry(e: &JsonValue) -> (r: Result<Master, CrowdmarkError>)
    ensures
        match r {
            Ok(m) => spec_master_entry(*e) == Ok::<MasterRep, Seq<char>>(m@),
            Err(err) => spec_master_entry(*e) matches Err(m) && (err matches
                CrowdmarkError::DecodeError(t) && t@ == m),
        },
{
    let id = match get(e, "id") {
        Some(v) => match as_text(v) {
            Some(s) => s,
            None => {
                return Err(decode_error("included entry without an id"));
            },
        },
        None => {
            return Err(decode_error("included entry without an id"));
        },
    };
    let type_ok = match get(e, "type") {
        Some(v) => match as_text(v) {
            Some(s) => str_eq(s.as_str(), "exam-masters"),
            None => false,
        },
        None => false,
    };
    if !type_ok {
        return Err(decode_error("unknown resource type in included"));
    }
    let attrs = match get(e, "attributes") {
        Some(v) => v,
        None => {
            return Err(decode_error("exam-master without a title"));
        },
    };
    let title = match get(attrs, "title") {
        Some(v) => match as_text(v) {
            Some(s) => s,
            None => {
                return Err(decode_error("exam-master without a title"));
            },
        },
        None => {
            return Err(decode_error("exam-master without a title"));
        },
    };
    let kind_text = match get(attrs, "type") {
        Some(v) => match as_text(v) {
            Some(s) => Some(s),
            None => None,
        },
        None => None,
    };
    let kind = match kind_text {
        Some(s) => {
            if str_eq(s.as_str(), "ExamMaster::AtHome") {
                AssessmentKind::TakeHome
            } else if str_eq(s.as_str(), "ExamMaster::Proctored") {
                AssessmentKind::Proctored
            } else {
                return Err(decode_error("exam-master with an unknown kind"));
            }
        },
        None => {
            return Err(decode_error("exam-master with an unknown kind"));
        },
    };
    Ok(Master { id: id.clone(), title: title.clone(), kind })
}

/// Resolves a relationship id against the decoded included set, last
/// carrier first.
fn find_master<'a>(ms: &'a Vec<Master>, id: &str) -> (r: Option<&'a Master>)
    ensures
        match r {
            Some(m) => spec_find_master(ms.deep_view(), id@) == Some(m@),
            None => spec_find_master(ms.deep_view(), id@) is None,
        },
{
    let mut j: usize = ms.len();
    proof {
        assert(ms.deep_view().take(j as int) =~= ms.deep_view());
    }
    while j > 0
        invariant
            j <= ms@.len(),
            ms.deep_view().len() == ms@.len(),
            spec_find_master(ms.deep_view().take(j as int), id@) == spec_find_master(
                ms.deep_view(),
                id@,
            ),
        decreases j,
    {
        j = j - 1;
        proof {
            assert(ms.deep_view().take(j as int + 1).last() == ms.deep_view()[j as int]);
            assert(ms.deep_view().take(j as int + 1).drop_last() =~= ms.deep_view().take(
                j as int,
            ));
        }
        if str_eq(ms[j].id.as_str(), id) {
            return Some(&ms[j]);
        }
    }
    proof {
        assert(ms.deep_view().take(0) =~= Seq::<MasterRep>::empty());
    }
    None
}

/// Decodes an optional timestamp attribute.
fn ts_field(e: &JsonValue, name: &str) -> (r: Result<Option<i64>, CrowdmarkError>)
    ensures
        match r {
            Ok(t) => spec_ts_field(*e, name@) == Ok::<Option<i64>, Seq<char>>(t),
            Err(err) => spec_ts_field(*e, name@) matches Err(m) && (err matches
                CrowdmarkError::DecodeError(t) && t@ == m),
        },
{
    let attrs = match get(e, "attributes") {
        Some(v) => v,
        None => {
            return Ok(None);
        },
    };
    match get(attrs, name) {
        None => Ok(None),
        Some(JsonValue::Null) => Ok(None),
        Some(JsonValue::Text(s)) => match crate::outside::parse_rfc3339_millis(s.as_str()) {
            Some(t) => Ok(Some(t)),
            None => Err(
                CrowdmarkError::DecodeError(cat2("invalid timestamp: ", s.as_str())),
            ),
        },
        Some(_) => Err(decode_error("timestamp is not a string")),
    }
}

/// Decodes the normalized-points attribute.
fn score_field(e: &JsonValue) -> (r: Result<Option<u32>, CrowdmarkError>)
    ensures
        match r {
            Ok(s) => spec_score_field(*e) == Ok::<Option<u32>, Seq<char>>(s),
            Err(err) => spec_score_field(*e) matches Err(m) && (err matches
                CrowdmarkError::DecodeError(t) && t@ == m),
        },
{
    let missing = "assessment without a normalized-points value";
    let attrs = match get(e, "attributes") {
        Some(v) => v,
        None => {
            return Err(decode_error(missing));
        },
    };
    match get(attrs, "normalized-points") {
        None => Err(decode_error(missing)),
        Some(JsonValue::Int(i)) => {
            if *i >= 0 {
                Ok(None)
            } else {
                Err(decode_error("negative normalized-points value"))
            }
        },
        Some(JsonValue::Text(s)) => match parse_score(s.as_str()) {
            Ok(v) => Ok(Some(v)),
            Err(err) => Err(err),
        },
        Some(_) => Err(decode_error("normalized-points is neither a number nor a string")),
    }
}

/// Decodes one assessment entry against the decoded included set.
fn decode_assessment_entry(e: &JsonValue, ms: &Vec<Master>) -> (r: Result<
    Assessment,
    CrowdmarkError,
>)
    ensures
        match r {
            Ok(a) => spec_assessment_entry(*e, ms.deep_view()) == Ok::<AssessmentRep, Seq<char>>(
                a@,
            ),
            Err(err) => spec_assessment_entry(*e, ms.deep_view()) matches Err(m) && (err matches
                CrowdmarkError::DecodeError(t) && t@ == m),
        },
{
    let id_ok = match get(e, "id") {
        Some(v) => match as_text(v) {
            Some(_) => true,
            None => false,
        },
        None => false,
    };
    if !id_ok {
        return Err(decode_error("assessment entry without an id"));
    }
    let type_ok = match get(e, "type") {
        Some(v) => match as_text(v) {
            Some(s) => str_eq(s.as_str(), "assignments"),
            None => false,
        },
        None => false,
    };
    if !type_ok {
        return Err(decode_error("unknown resource type in data"));
    }
    let score = match score_field(e) {
        Ok(s) => s,
        Err(err) => {
            return Err(err);
        },
    };
    let submitted = match ts_field(e, "submitted-at") {
        Ok(t) => t,
        Err(err) => {
            return Err(err);
        },
    };
    let due = match ts_field(e, "due") {
        Ok(t) => t,
        Err(err) => {
            return Err(err);
        },
    };
    let graded = match ts_field(e, "marks-sent-at") {
        Ok(t) => t,
        Err(err) => {
            return Err(err);
        },
    };
    let missing_rel = "assessment without an exam-master relationship";
    let rel = match get(e, "relationships") {
        Some(rels) => match get(rels, "exam-master") {
            Some(em) => match get(em, "data") {
                Some(data) => match get(data, "id") {
                    Some(v) => match as_text(v) {
                        Some(s) => s,
                        None => {
                            return Err(decode_error(missing_rel));
                        },
                    },
                    None => {
                        return Err(decode_error(missing_rel));
                    },
                },
                None => {
                    return Err(decode_error(missing_rel));
                },
            },
            None => {
                return Err(decode_error(missing_rel));
            },
        },
        None => {
            return Err(decode_error(missing_rel));
        },
    };
    match find_master(ms, rel.as_str()) {
        None => Err(
            CrowdmarkError::DecodeError(cat2("Missing exam_master for id ", rel.as_str())),
        ),
        Some(master) => Ok(
            Assessment {
                id: rel.clone(),
                title: master.title.clone(),
                kind: master.kind,
                due,
                submitted,
                graded,
                score,
            },
        ),
    }
}

/// Decodes a whole assessment document: the included exam masters are
/// indexed by id, then each `data` entry is joined against them, in the
/// entries' order.  An absent or empty included set is the platform's
/// unknown-course answer, not a decode failure.
#[verifier::loop_isolation(false)]
pub fn decode_assessments(doc: &JsonValue) -> (r: Result<Vec<Assessment>, CrowdmarkError>)
    ensures
        match r {
            Ok(list) => spec_assessments_outcome(*doc) == Ok::<Seq<AssessmentRep>,
                AssessmentFailure>(list.deep_view()),
            Err(err) => match spec_assessments_outcome(*doc) {
                Ok(_) => false,
                Err(AssessmentFailure::InvalidCourse) => err matches
                    CrowdmarkError::InvalidCourseID,
                Err(AssessmentFailure::Decode(m)) => err matches CrowdmarkError::DecodeError(t)
                    && t@ == m,
            },
        },
{
    let included = match get(doc, "included") {
        Some(v) => v,
        None => {
            return Err(CrowdmarkError::InvalidCourseID);
        },
    };
    let inc_items = match as_list(included) {
        Some(items) => items,
        None => {
            return Err(decode_error("included is not a list"));
        },
    };
    if inc_items.len() == 0 {
        return Err(CrowdmarkError::InvalidCourseID);
    }

    let mut masters: Vec<Master> = Vec::new();
    let mut i: usize = 0;
    proof {
        assert(inc_items@.take(0) =~= Seq::<JsonValue>::empty());
        assert(masters.deep_view() =~= Seq::<MasterRep>::empty());
    }
    while i < inc_items.len()
        invariant
            i <= inc_items.len(),
            spec_master_list(inc_items@.take(i as int)) == Ok::<Seq<MasterRep>, Seq<char>>(
                masters.deep_view(),
            ),
        decreases inc_items.len() - i,
    {
        let ghost prefix = inc_items@.take(i as int);
        match decode_master_entry(&inc_items[i]) {
            Ok(m) => {
                masters.push(m);
                proof {
                    assert(inc_items@.take(i as int + 1).drop_last() =~= prefix);
                    assert(inc_items@.take(i as int + 1).last() == inc_items@[i as int]);
                    assert(masters.deep_view() =~= spec_master_list(
                        inc_items@.take(i as int + 1),
                    )->Ok_0);
                }
            },
            Err(err) => {
                proof {
                    assert(inc_items@.take(i as int + 1).drop_last() =~= prefix);
                    assert(inc_items@.take(i as int + 1).last() == inc_items@[i as int]);
                    lemma_master_list_error_persists(inc_items@, i as int + 1);
                }
                return Err(err);
            },
        }
        i = i + 1;
    }
    proof {
        assert(inc_items@.take(i as int) =~= inc_items@);
    }

    let entries = match get(doc, "data") {
        Some(v) => match as_list(v) {
            Some(items) => items,
            None => {
                return Err(decode_error("response without a data list"));
            },
        },
        None => {
            return Err(decode_error("response without a data list"));
        },
    };

    let mut out: Vec<Assessment> = Vec::new();
    let mut k: usize = 0;
    proof {
        assert(entries@.take(0) =~= Seq::<JsonValue>::empty());
        assert(out.deep_view() =~= Seq::<AssessmentRep>::empty());
    }
    while k < entries.len()
        invariant
            k <= entries.len(),
            spec_master_list(list_of(get1(*doc, "included"@))->0) == Ok::<Seq<MasterRep>,
                Seq<char>>(masters.deep_view()),
            match spec_assessment_list(entries@, masters.deep_view()) {
                Ok(l) => spec_assessments_outcome(*doc) == Ok::<Seq<AssessmentRep>,
                    AssessmentFailure>(l),
                Err(m) => spec_assessments_outcome(*doc) == Err::<Seq<AssessmentRep>,
                    AssessmentFailure>(AssessmentFailure::Decode(m)),
            },
            spec_assessment_list(entries@.take(k as int), masters.deep_view()) == Ok::<
                Seq<AssessmentRep>,
                Seq<char>,
            >(out.deep_view()),
        decreases entries.len() - k,
    {
        let ghost prefix = entries@.take(k as int);
        match decode_assessment_entry(&entries[k], &masters) {
            Ok(a) => {
                out.push(a);
                proof {
                    assert(entries@.take(k as int + 1).drop_last() =~= prefix);
                    assert(entries@.take(k as int + 1).last() == entries@[k as int]);
                    assert(out.deep_view() =~= spec_assessment_list(
                        entries@.take(k as int + 1),
                        masters.deep_view(),
                    )->Ok_0);
                }
            },
            Err(err) => {
                proof {
                    assert(entries@.take(k as int + 1).drop_last() =~= prefix);
                    assert(entries@.take(k as int + 1).last() == entries@[k as int]);
                    lemma_assessment_list_error_persists(
                        entries@,
                        masters.deep_view(),
                        k as int + 1,
                    );
                }
                return Err(err);
            },
        }
        k = k + 1;
    }
    proof {
        assert(entries@.take(k as int) =~= entries@);
    }
    Ok(out)
}

} // verus!
