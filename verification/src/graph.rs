//! The assessment graph: the snapshot fetched at the start of every
//! mutating run.
//!
//! The snapshot holds the assignment's id and the page and question
//! resources the platform currently has for it, in the order the
//! platform lists them.  It is decoded fresh for every run and never
//! cached: platform state can change between calls, and a stale
//! snapshot would corrupt the clear/upload sequence.

use crate::error::CrowdmarkError;
use crate::json::{
    as_int, as_list, as_text, get, get1, get2, int_of, list_of, object_of, step, str_eq,
    text_of, JsonValue,
};
use crate::text::{cat3, i64_to_string, spec_int_decimal};
use vstd::prelude::*;

verus! {

/// The snapshot endpoint for one assessment, asking for the exam-master
/// fields the listing also uses.
pub fn assessment_fetch_url(assessment_id: &str) -> (r: String)
    ensures
        r@ == "https://app.crowdmark.com/api/v2/student/assignments/"@ + assessment_id@
            + "?fields[exam-masters][]=type&fields[exam-masters][]=title"@,
{
    cat3(
        "https://app.crowdmark.com/api/v2/student/assignments/",
        assessment_id,
        "?fields[exam-masters][]=type&fields[exam-masters][]=title",
    )
}

/// One page resource the platform already holds.
#[derive(Clone, Debug)]
pub struct PageEntry {
    pub id: String,
    pub filename: Option<String>,
    pub uuid: Option<String>,
    pub number: Option<i64>,
    pub question_id: Option<String>,
}

/// The mathematical content of a [`PageEntry`].
pub struct PageRep {
    pub id: Seq<char>,
    pub filename: Option<Seq<char>>,
    pub uuid: Option<Seq<char>>,
    pub number: Option<i64>,
    pub question_id: Option<Seq<char>>,
}

impl View for PageEntry {
    type V = PageRep;

    open spec fn view(&self) -> PageRep {
        PageRep {
            id: self.id@,
            filename: match self.filename {
                Some(s) => Some(s@),
                None => None,
            },
            uuid: match self.uuid {
                Some(s) => Some(s@),
                None => None,
            },
            number: self.number,
            question_id: match self.question_id {
                Some(s) => Some(s@),
                None => None,
            },
        }
    }
}

impl DeepView for PageEntry {
    type V = PageRep;

    open spec fn deep_view(&self) -> PageRep {
        self@
    }
}

/// One question resource the assessment declares.
#[derive(Clone, Debug)]
pub struct QuestionEntry {
    pub id: String,
    pub sequence: Option<usize>,
}

/// The mathematical content of a [`QuestionEntry`].
pub struct QuestionRep {
    pub id: Seq<char>,
    pub sequence: Option<int>,
}

impl View for QuestionEntry {
    type V = QuestionRep;

    open spec fn view(&self) -> QuestionRep {
        QuestionRep {
            id: self.id@,
            sequence: match self.sequence {
                Some(u) => Some(u as int),
                None => None,
            },
        }
    }
}

impl DeepView for QuestionEntry {
    type V = QuestionRep;

    open spec fn deep_view(&self) -> QuestionRep {
        self@
    }
}

/// The submission-time snapshot of one assignment.
#[derive(Clone, Debug)]
pub struct AssessmentGraph {
    pub id: String,
    pub pages: Vec<PageEntry>,
    pub questions: Vec<QuestionEntry>,
}

/// The mathematical content of an [`AssessmentGraph`].
pub struct GraphRep {
    pub id: Seq<char>,
    pub pages: Seq<PageRep>,
    pub questions: Seq<QuestionRep>,
}

impl View for AssessmentGraph {
    type V = GraphRep;

    open spec fn view(&self) -> GraphRep {
        GraphRep {
            id: self.id@,
            pages: self.pages.deep_view(),
            questions: self.questions.deep_view(),
        }
    }
}

impl DeepView for AssessmentGraph {
    type V = GraphRep;

    open spec fn deep_view(&self) -> GraphRep {
        self@
    }
}

/// The string form of a relationship id value: a string as itself, a
/// number in decimal, anything else empty.
pub open spec fn spec_id_string(v: JsonValue) -> Seq<char> {
    match v {
        JsonValue::Text(s) => s@,
        JsonValue::Int(i) => spec_int_decimal(i as int),
        _ => Seq::<char>::empty(),
    }
}

/// What an optional string attribute decodes to.
pub open spec fn spec_opt_text_field(e: JsonValue, name: Seq<char>) -> Result<
    Option<Seq<char>>,
    Seq<char>,
> {
    match get2(e, "attributes"@, name) {
        None => Ok(None),
        Some(JsonValue::Null) => Ok(None),
        Some(JsonValue::Text(s)) => Ok(Some(s@)),
        Some(_) => Err("invalid "@ + name + " attribute"@),
    }
}

/// What the optional sequence attribute decodes to.
pub open spec fn spec_opt_sequence_field(e: JsonValue) -> Result<Option<int>, Seq<char>> {
    match get2(e, "attributes"@, "sequence"@) {
        None => Ok(None),
        Some(JsonValue::Null) => Ok(None),
        Some(JsonValue::Int(i)) => if 0 <= i <= usize::MAX {
            Ok(Some(i as int))
        } else {
            Err("invalid sequence attribute"@)
        },
        Some(_) => Err("invalid sequence attribute"@),
    }
}

/// What the optional number attribute decodes to.
pub open spec fn spec_opt_number_field(e: JsonValue) -> Result<Option<i64>, Seq<char>> {
    match get2(e, "attributes"@, "number"@) {
        None => Ok(None),
        Some(JsonValue::Null) => Ok(None),
        Some(JsonValue::Int(i)) => Ok(Some(i)),
        Some(_) => Err("invalid number attribute"@),
    }
}

/// What the optional question relationship of an included entry decodes
/// to: the string form of the linked question's id, when one is linked.
pub open spec fn spec_question_rel(e: JsonValue) -> Result<Option<Seq<char>>, Seq<char>> {
    let rels = get1(e, "relationships"@);
    match rels {
        None => Ok(None),
        Some(JsonValue::Null) => Ok(None),
        Some(JsonValue::Object(_)) => {
            match step(rels, "question"@) {
                None => Ok(None),
                Some(JsonValue::Null) => Ok(None),
                Some(JsonValue::Object(_)) => {
                    match step(step(rels, "question"@), "data"@) {
                        None => Ok(None),
                        Some(JsonValue::Null) => Ok(None),
                        Some(JsonValue::Object(_)) => {
                            match step(step(step(rels, "question"@), "data"@), "id"@) {
                                None => Err("question relationship without an id"@),
                                Some(v) => Ok(Some(spec_id_string(v))),
                            }
                        },
                        Some(_) => Err("invalid question relationship"@),
                    }
                },
                Some(_) => Err("invalid question relationship"@),
            }
        },
        Some(_) => Err("relationships is not an object"@),
    }
}

/// What one included entry of the snapshot decodes to.
pub enum GraphItem {
    Page(PageRep),
    Question(QuestionRep),
    Other,
}

/// What one included entry decodes to: a page, a question, an entry of
/// another type, or the message of the decode error it raises.
pub open spec fn spec_graph_entry(e: JsonValue) -> Result<GraphItem, Seq<char>> {
    if text_of(get1(e, "id"@)) is None {
        Err("included entry without an id"@)
    } else if text_of(get1(e, "type"@)) is None {
        Err("included entry without a type"@)
    } else if get1(e, "attributes"@) is Some && object_of(get1(e, "attributes"@)) is None {
        Err("attributes is not an object"@)
    } else {
        match spec_opt_sequence_field(e) {
            Err(m) => Err(m),
            Ok(sequence) => match spec_opt_text_field(e, "filename"@) {
                Err(m) => Err(m),
                Ok(filename) => match spec_opt_text_field(e, "uuid"@) {
                    Err(m) => Err(m),
                    Ok(uuid) => match spec_opt_number_field(e) {
                        Err(m) => Err(m),
                        Ok(number) => match spec_question_rel(e) {
                            Err(m) => Err(m),
                            Ok(question_id) => {
                                let id = text_of(get1(e, "id"@))->0;
                                let ty = text_of(get1(e, "type"@))->0;
                                if ty == "assignment-pages"@ {
                                    Ok(
                                        GraphItem::Page(
                                            PageRep { id, filename, uuid, number, question_id },
                                        ),
                                    )
                                } else if ty == "assignment-questions"@ {
                                    Ok(GraphItem::Question(QuestionRep { id, sequence }))
                                } else {
                                    Ok(GraphItem::Other)
                                }
                            },
                        },
                    },
                },
            },
        }
    }
}

/// What a whole included list decodes to: the pages and the questions,
/// each in the platform's order.
pub open spec fn spec_graph_lists(entries: Seq<JsonValue>) -> Result<
    (Seq<PageRep>, Seq<QuestionRep>),
    Seq<char>,
>
    decreases entries.len(),
{
    if entries.len() == 0 {
        Ok((Seq::<PageRep>::empty(), Seq::<QuestionRep>::empty()))
    } else {
        match spec_graph_lists(entries.drop_last()) {
            Err(m) => Err(m),
            Ok(rest) => match spec_graph_entry(entries.last()) {
                Err(m) => Err(m),
                Ok(GraphItem::Page(p)) => Ok((rest.0.push(p), rest.1)),
                Ok(GraphItem::Question(q)) => Ok((rest.0, rest.1.push(q))),
                Ok(GraphItem::Other) => Ok(rest),
            },
        }
    }
}

/// Why a snapshot fetch is refused.
pub enum GraphFailure {
    /// The platform answered the envelope it uses for an unknown
    /// assessment id: no included set at all.
    InvalidAssessment,
    /// The document is malformed, with the decode error's message.
    Decode(Seq<char>),
}

/// What a whole snapshot document decodes to.
pub open spec fn spec_graph_outcome(doc: JsonValue) -> Result<GraphRep, GraphFailure> {
    let inc = get1(doc, "included"@);
    if inc is None {
        Err(GraphFailure::InvalidAssessment)
    } else if list_of(inc) is None {
        Err(GraphFailure::Decode("included is not a list"@))
    } else if text_of(get2(doc, "data"@, "id"@)) is None {
        Err(GraphFailure::Decode("assignment without an id"@))
    } else {
        match spec_graph_lists(list_of(inc)->0) {
            Err(m) => Err(GraphFailure::Decode(m)),
            Ok(lists) => Ok(
                GraphRep {
                    id: text_of(get2(doc, "data"@, "id"@))->0,
                    pages: lists.0,
                    questions: lists.1,
                },
            ),
        }
    }
}

/// A prefix that already fails to decode decides the whole list.
proof fn lemma_graph_lists_error_persists(entries: Seq<JsonValue>, i: int)
    requires
        0 <= i <= entries.len(),
        spec_graph_lists(entries.take(i)) is Err,
    ensures
        spec_graph_lists(entries) == spec_graph_lists(entries.take(i)),
    decreases entries.len() - i,
{
    if i < entries.len() {
        assert(entries.take(i + 1).drop_last() =~= entries.take(i));
        lemma_graph_lists_error_persists(entries, i + 1);
    } else {
        assert(entries.take(i) =~= entries);
    }
}

fn graph_error(msg: &str) -> (r: CrowdmarkError)
    ensures
        r matches CrowdmarkError::DecodeError(t) && t@ == msg@,
{
    CrowdmarkError::DecodeError(msg.to_owned())
}

/// Decodes an optional string attribute.
fn opt_text_field(e: &JsonValue, name: &str) -> (r: Result<Option<String>, CrowdmarkError>)
    ensures
        match r {
            Ok(t) => spec_opt_text_field(*e, name@) == Ok::<Option<Seq<char>>, Seq<char>>(
                match t {
                    Some(s) => Some(s@),
                    None => None,
                },
            ),
            Err(err) => spec_opt_text_field(*e, name@) matches Err(m) && (err matches
                CrowdmarkError::DecodeError(t) && t@ == m),
        },
{
    let attrs = match get(e, "attributes") {
        Some(v) => v,
        None => {
            return Ok(None);
        },
    };
    match get(attrs, name) {
        None => Ok(None),
        Some(JsonValue::Null) => Ok(None),
        Some(JsonValue::Text(s)) => Ok(Some(s.clone())),
        Some(_) => Err(
            CrowdmarkError::DecodeError(cat3("invalid ", name, " attribute")),
        ),
    }
}

/// Decodes the optional sequence attribute.
fn opt_sequence_field(e: &JsonValue) -> (r: Result<Option<usize>, CrowdmarkError>)
    ensures
        match r {
            Ok(t) => spec_opt_sequence_field(*e) == Ok::<Option<int>, Seq<char>>(
                match t {
                    Some(u) => Some(u as int),
                    None => None,
                },
            ),
            Err(err) => spec_opt_sequence_field(*e) matches Err(m) && (err matches
                CrowdmarkError::DecodeError(t) && t@ == m),
        },
{
    let attrs = match get(e, "attributes") {
        Some(v) => v,
        None => {
            return Ok(None);
        },
    };
    match get(attrs, "sequence") {
        None => Ok(None),
        Some(JsonValue::Null) => Ok(None),
        Some(JsonValue::Int(i)) => {
            if *i >= 0 && (*i as u64) <= (usize::MAX as u64) {
                Ok(Some(*i as usize))
            } else {
                Err(graph_error("invalid sequence attribute"))
            }
        },
        Some(_) => Err(graph_error("invalid sequence attribute")),
    }
}

/// Decodes the optional number attribute.
fn opt_number_field(e: &JsonValue) -> (r: Result<Option<i64>, CrowdmarkError>)
    ensures
        match r {
            Ok(t) => spec_opt_number_field(*e) == Ok::<Option<i64>, Seq<char>>(t),
            Err(err) => spec_opt_number_field(*e) matches Err(m) && (err matches
                CrowdmarkError::DecodeError(t) && t@ == m),
        },
{
    let attrs = match get(e, "attributes") {
        Some(v) => v,
        None => {
            return Ok(None);
        },
    };
    match get(attrs, "number") {
        None => Ok(None),
        Some(JsonValue::Null) => Ok(None),
        Some(JsonValue::Int(i)) => Ok(Some(*i)),
        Some(_) => Err(graph_error("invalid number attribute")),
    }
}

/// Decodes the optional question relationship.
fn question_rel(e: &JsonValue) -> (r: Result<Option<String>, CrowdmarkError>)
    ensures
        match r {
            Ok(t) => spec_question_rel(*e) == Ok::<Option<Seq<char>>, Seq<char>>(
                match t {
                    Some(s) => Some(s@),
                    None => None,
                },
            ),
            Err(err) => spec_question_rel(*e) matches Err(m) && (err matches
                CrowdmarkError::DecodeError(t) && t@ == m),
        },
{
    let rels = match get(e, "relationships") {
        None => {
            return Ok(None);
        },
        Some(JsonValue::Null) => {
            return Ok(None);
        },
        Some(v @ JsonValue::Object(_)) => v,
        Some(_) => {
            return Err(graph_error("relationships is not an object"));
        },
    };
    let q = match get(rels, "question") {
        None => {
            return Ok(None);
        },
        Some(JsonValue::Null) => {
            return Ok(None);
        },
        Some(v @ JsonValue::Object(_)) => v,
        Some(_) => {
            return Err(graph_error("invalid question relationship"));
        },
    };
    let data = match get(q, "data") {
        None => {
            return Ok(None);
        },
        Some(JsonValue::Null) => {
            return Ok(None);
        },
        Some(v @ JsonValue::Object(_)) => v,
        Some(_) => {
            return Err(graph_error("invalid question relationship"));
        },
    };
    match get(data, "id") {
        None => Err(graph_error("question relationship without an id")),
        Some(JsonValue::Text(s)) => Ok(Some(s.clone())),
        Some(JsonValue::Int(i)) => Ok(Some(i64_to_string(*i))),
        Some(_) => Ok(Some(String::new())),
    }
}

/// What one included entry decodes to, executably.
enum DecodedEntry {
    Page(PageEntry),
    Question(QuestionEntry),
    Other,
}

/// Decodes one included entry of the snapshot.
fn decode_graph_entry(e: &JsonValue) -> (r: Result<DecodedEntry, CrowdmarkError>)
    ensures
        match r {
            Ok(DecodedEntry::Page(p)) => spec_graph_entry(*e) == Ok::<GraphItem, Seq<char>>(
                GraphItem::Page(p@),
            ),
            Ok(DecodedEntry::Question(q)) => spec_graph_entry(*e) == Ok::<GraphItem, Seq<char>>(
                GraphItem::Question(q@),
            ),
            Ok(DecodedEntry::Other) => spec_graph_entry(*e) == Ok::<GraphItem, Seq<char>>(
                GraphItem::Other,
            ),
            Err(err) => spec_graph_entry(*e) matches Err(m) && (err matches
                CrowdmarkError::DecodeError(t) && t@ == m),
        },
{
    let id = match get(e, "id") {
        Some(v) => match as_text(v) {
            Some(s) => s,
            None => {
                return Err(graph_error("included entry without an id"));
            },
        },
        None => {
            return Err(graph_error("included entry without an id"));
        },
    };
    let ty = match get(e, "type") {
        Some(v) => match as_text(v) {
            Some(s) => s,
            None => {
                return Err(graph_error("included entry without a type"));
            },
        },
        None => {
            return Err(graph_error("included entry without a type"));
        },
    };
    match get(e, "attributes") {
        Some(JsonValue::Object(_)) => {},
        Some(_) => {
            return Err(graph_error("attributes is not an object"));
        },
        None => {},
    }
    let sequence = match opt_sequence_field(e) {
        Ok(t) => t,
        Err(err) => {
            return Err(err);
        },
    };
    let filename = match opt_text_field(e, "filename") {
        Ok(t) => t,
        Err(err) => {
            return Err(err);
        },
    };
    let uuid = match opt_text_field(e, "uuid") {
        Ok(t) => t,
        Err(err) => {
            return Err(err);
        },
    };
    let number = match opt_number_field(e) {
        Ok(t) => t,
        Err(err) => {
            return Err(err);
        },
    };
    let question_id = match question_rel(e) {
        Ok(t) => t,
        Err(err) => {
            return Err(err);
        },
    };
    if str_eq(ty.as_str(), "assignment-pages") {
        Ok(
            DecodedEntry::Page(
                PageEntry { id: id.clone(), filename, uuid, number, question_id },
            ),
        )
    } else if str_eq(ty.as_str(), "assignment-questions") {
        Ok(DecodedEntry::Question(QuestionEntry { id: id.clone(), sequence }))
    } else {
        Ok(DecodedEntry::Other)
    }
}

/// Decodes a whole snapshot document into the assessment graph.  An
/// absent included set is the platform's unknown-assessment answer,
/// not a decode failure.
#[verifier::loop_isolation(false)]
pub fn decode_graph(doc: &JsonValue) -> (r: Result<AssessmentGraph, CrowdmarkError>)
    ensures
        match r {
            Ok(g) => spec_graph_outcome(*doc) == Ok::<GraphRep, GraphFailure>(g@),
            Err(err) => match spec_graph_outcome(*doc) {
                Ok(_) => false,
                Err(GraphFailure::InvalidAssessment) => err matches
                    CrowdmarkError::InvalidAssessmentID,
                Err(GraphFailure::Decode(m)) => err matches CrowdmarkError::DecodeError(t) && t@
                    == m,
            },
        },
{
    let included = match get(doc, "included") {
        Some(v) => v,
        None => {
            return Err(CrowdmarkError::InvalidAssessmentID);
        },
    };
    let inc_items = match as_list(included) {
        Some(items) => items,
        None => {
            return Err(graph_error("included is not a list"));
        },
    };
    let id = match get(doc, "data") {
        Some(data) => match get(data, "id") {
            Some(v) => match as_text(v) {
                Some(s) => s,
                None => {
                    return Err(graph_error("assignment without an id"));
                },
            },
            None => {
                return Err(graph_error("assignment without an id"));
            },
        },
        None => {
            return Err(graph_error("assignment without an id"));
        },
    };

    let mut pages: Vec<PageEntry> = Vec::new();
    let mut questions: Vec<QuestionEntry> = Vec::new();
    let mut i: usize = 0;
    proof {
        assert(inc_items@.take(0) =~= Seq::<JsonValue>::empty());
        assert(pages.deep_view() =~= Seq::<PageRep>::empty());
        assert(questions.deep_view() =~= Seq::<QuestionRep>::empty());
    }
    while i < inc_items.len()
        invariant
            i <= inc_items.len(),
            spec_graph_lists(inc_items@.take(i as int)) == Ok::<
                (Seq<PageRep>, Seq<QuestionRep>),
                Seq<char>,
            >((pages.deep_view(), questions.deep_view())),
        decreases inc_items.len() - i,
    {
        let ghost prefix = inc_items@.take(i as int);
        proof {
            assert(inc_items@.take(i as int + 1).drop_last() =~= prefix);
            assert(inc_items@.take(i as int + 1).last() == inc_items@[i as int]);
        }
        match decode_graph_entry(&inc_items[i]) {
            Ok(DecodedEntry::Page(p)) => {
                pages.push(p);
                proof {
                    assert(pages.deep_view() =~= spec_graph_lists(
                        inc_items@.take(i as int + 1),
                    )->Ok_0.0);
                }
            },
            Ok(DecodedEntry::Question(q)) => {
                questions.push(q);
                proof {
                    assert(questions.deep_view() =~= spec_graph_lists(
                        inc_items@.take(i as int + 1),
                    )->Ok_0.1);
                }
            },
            Ok(DecodedEntry::Other) => {},
            Err(err) => {
                proof {
                    lemma_graph_lists_error_persists(inc_items@, i as int + 1);
                }
                return Err(err);
            },
        }
        i = i + 1;
    }
    proof {
        assert(inc_items@.take(i as int) =~= inc_items@);
    }
    Ok(AssessmentGraph { id: id.clone(), pages, questions })
}

/// The first declared question carrying the given sequence number.
pub open spec fn spec_find_question(qs: Seq<QuestionRep>, seqno: int) -> Option<QuestionRep>
    decreases qs.len(),
{
    if qs.len() == 0 {
        None
    } else if qs.first().sequence == Some(seqno) {
        Some(qs.first())
    } else {
        spec_find_question(qs.drop_first(), seqno)
    }
}

/// Resolves a 0-based page ordinal to the id of the question with the
/// matching 1-based sequence number.  A page beyond the declared
/// questions is the too-many-pages failure.
pub fn resolve_question(g: &AssessmentGraph, page_index: usize) -> (r: Result<
    String,
    CrowdmarkError,
>)
    requires
        page_index < usize::MAX,
    ensures
        match r {
            Ok(id) => spec_find_question(g@.questions, page_index + 1) matches Some(q) && q.id
                == id@,
            Err(err) => spec_find_question(g@.questions, page_index + 1) is None && err matches
                CrowdmarkError::TooManyPages,
        },
{
    let target: usize = page_index + 1;
    let mut i: usize = 0;
    proof {
        assert(g@.questions.skip(0) =~= g@.questions);
    }
    while i < g.questions.len()
        invariant
            i <= g.questions.len(),
            g@.questions.len() == g.questions@.len(),
            target == page_index + 1,
            spec_find_question(g@.questions.skip(i as int), target as int) == spec_find_question(
                g@.questions,
                target as int,
            ),
        decreases g.questions.len() - i,
    {
        proof {
            assert(g@.questions.skip(i as int).first() == g@.questions[i as int]);
            assert(g@.questions.skip(i as int).drop_first() =~= g@.questions.skip(i as int + 1));
        }
        let matches_target = match g.questions[i].sequence {
            Some(s) => s == target,
            None => false,
        };
        if matches_target {
            return Ok(g.questions[i].id.clone());
        }
        i = i + 1;
    }
    proof {
        assert(g@.questions.skip(i as int) =~= Seq::<QuestionRep>::empty());
    }
    Err(CrowdmarkError::TooManyPages)
}

/// When an assessment declares its questions with sequence numbers
/// `off+1, off+2, ...` in order, a sequence number resolves exactly
/// when it lies in that range, to the question at its own position.
proof fn lemma_find_question_offset(qs: Seq<QuestionRep>, off: int, n: int)
    requires
        forall|i: int| 0 <= i < qs.len() ==> (#[trigger] qs[i]).sequence == Some(off + i + 1),
        n > off,
    ensures
        spec_find_question(qs, n) is Some <==> n <= off + qs.len(),
        n <= off + qs.len() ==> spec_find_question(qs, n) == Some(qs[n - off - 1]),
    decreases qs.len(),
{
    if qs.len() > 0 {
        if qs.first().sequence == Some(n) {
        } else {
            assert(qs.first().sequence == Some(off + 1));
            assert(n != off + 1);
            assert(forall|i: int|
                0 <= i < qs.drop_first().len() ==> (#[trigger] qs.drop_first()[i]).sequence
                    == Some(off + 1 + i + 1));
            lemma_find_question_offset(qs.drop_first(), off + 1, n);
        }
    }
}

/// Pages at or below the declared question count resolve, later pages
/// are refused: for a graph whose questions carry sequence numbers
/// `1..=Q` in order, a 1-based page number `n` resolves to the
/// question at position `n - 1` exactly when `n <= Q`, and fails as
/// too-many-pages exactly when `n > Q` — independently of the order in
/// which pages are processed.
pub proof fn lemma_question_resolution_threshold(qs: Seq<QuestionRep>, n: int)
    requires
        forall|i: int| 0 <= i < qs.len() ==> (#[trigger] qs[i]).sequence == Some(i + 1),
        n >= 1,
    ensures
        spec_find_question(qs, n) is Some <==> n <= qs.len(),
        n <= qs.len() ==> spec_find_question(qs, n) == Some(qs[n - 1]),
{
    lemma_find_question_offset(qs, 0, n);
}

} // verus!
