//! The session: credential validation, anti-forgery token extraction,
//! and the typed read operations.
//!
//! The caller performs the HTTP exchanges: it fetches the student page
//! and hands its text to [`Client::new`], then fetches each listing and
//! hands the status code and parsed body to [`Client::list_courses`] or
//! [`Client::list_assessments`].

use crate::decode::{
    decode_assessments, decode_courses, Assessment, AssessmentFailure, AssessmentRep, Course,
    CourseRep, spec_assessments_outcome, spec_courses_outcome,
};
use crate::error::CrowdmarkError;
use crate::json::JsonValue;
use crate::outside::push_char;
use crate::text::{cat2, str_chars};
use vstd::prelude::*;

verus! {

/// The platform's base address.
pub fn base_url() -> (r: &'static str)
    ensures
        r@ == "https://app.crowdmark.com"@,
{
    "https://app.crowdmark.com"
}

/// The authenticated page the anti-forgery token is embedded in.
pub fn student_page_url() -> (r: &'static str)
    ensures
        r@ == "https://app.crowdmark.com/student"@,
{
    "https://app.crowdmark.com/student"
}

/// The course listing endpoint.
pub fn courses_url() -> (r: &'static str)
    ensures
        r@
            == "https://app.crowdmark.com/api/v2/student/courses?include[]=course-archivation"@,
{
    "https://app.crowdmark.com/api/v2/student/courses?include[]=course-archivation"
}

/// The assessment listing endpoint, filtered by course.
pub fn assessments_url(course_id: &str) -> (r: String)
    ensures
        r@
            == "https://app.crowdmark.com/api/v2/student/assignments?fields[exam-masters][]=type&fields[exam-masters][]=title&filter[course]="@
            + course_id@,
{
    cat2(
        "https://app.crowdmark.com/api/v2/student/assignments?fields[exam-masters][]=type&fields[exam-masters][]=title&filter[course]=",
        course_id,
    )
}

/// Whether a character may stand in an HTTP header value: every byte of
/// its UTF-8 form is a tab, or at least 32 and not 127.  A character
/// above the ASCII range qualifies, since all its bytes are above 127.
pub open spec fn valid_header_char(c: char) -> bool {
    c == '\t' || (' ' <= c && c != '\u{7f}')
}

/// Whether every character of a credential may stand in a header value.
pub open spec fn valid_header_text(s: Seq<char>) -> bool {
    forall|i: int| 0 <= i < s.len() ==> valid_header_char(#[trigger] s[i])
}

/// Whether a regex whitespace character.
pub open spec fn is_space(c: char) -> bool {
    c == ' ' || c == '\t' || c == '\n' || c == '\r' || c == '\u{b}' || c == '\u{c}'
}

/// Whether `lit` occurs in `s` starting at `i`.
pub open spec fn has_lit(s: Seq<char>, i: int, lit: Seq<char>) -> bool {
    0 <= i && i + lit.len() <= s.len() && s.subrange(i, i + lit.len()) == lit
}

/// The end of the whitespace run starting at `i`.
pub open spec fn skip_spaces(s: Seq<char>, i: int) -> int
    decreases s.len() - i,
{
    if !(0 <= i < s.len()) {
        i
    } else if is_space(s[i]) {
        skip_spaces(s, i + 1)
    } else {
        i
    }
}

/// The first position at or after `i` holding a double quote, or the
/// length.
pub open spec fn quote_from(s: Seq<char>, i: int) -> int
    decreases s.len() - i,
{
    if !(0 <= i < s.len()) {
        s.len() as int
    } else if s[i] == '"' {
        i
    } else {
        quote_from(s, i + 1)
    }
}

/// The anti-forgery token of a match of the embedded-token pattern at
/// position `i`: `<meta`, whitespace, `name="csrf-token"`, whitespace,
/// `content="`, then the token — one or more characters up to the next
/// double quote.
pub open spec fn spec_csrf_at(s: Seq<char>, i: int) -> Option<Seq<char>> {
    if !has_lit(s, i, "<meta"@) {
        None
    } else {
        let j = skip_spaces(s, i + 5);
        if j == i + 5 || !has_lit(s, j, "name=\"csrf-token\""@) {
            None
        } else {
            let k = skip_spaces(s, j + 17);
            if k == j + 17 || !has_lit(s, k, "content=\""@) {
                None
            } else {
                let q = quote_from(s, k + 9);
                if q >= s.len() || q == k + 9 {
                    None
                } else {
                    Some(s.subrange(k + 9, q))
                }
            }
        }
    }
}

/// The token of the leftmost match at or after `i`.
pub open spec fn spec_csrf_from(s: Seq<char>, i: int) -> Option<Seq<char>>
    decreases s.len() - i,
{
    if !(0 <= i < s.len()) {
        None
    } else if spec_csrf_at(s, i) is Some {
        spec_csrf_at(s, i)
    } else {
        spec_csrf_from(s, i + 1)
    }
}

/// The anti-forgery token embedded in a page, at the leftmost match.
pub open spec fn spec_csrf(s: Seq<char>) -> Option<Seq<char>> {
    spec_csrf_from(s, 0)
}

/// Whether `c` is a regex whitespace character.
fn is_space_exec(c: char) -> (r: bool)
    ensures
        r == is_space(c),
{
    c == ' ' || c == '\t' || c == '\n' || c == '\r' || c == '\u{b}' || c == '\u{c}'
}

/// Whether `lit` occurs in `cs` starting at `i`.
fn lit_at(cs: &Vec<char>, i: usize, lit: &Vec<char>) -> (r: bool)
    ensures
        r == has_lit(cs@, i as int, lit@),
{
    if i > cs.len() || cs.len() - i < lit.len() {
        return false;
    }
    let mut j: usize = 0;
    while j < lit.len()
        invariant
            i + lit.len() <= cs.len(),
            j <= lit.len(),
            forall|p: int| 0 <= p < j ==> cs@[i + p] == lit@[p],
        decreases lit.len() - j,
    {
        if cs[i + j] != lit[j] {
            proof {
                assert(cs@.subrange(i as int, i + lit@.len())[j as int] == cs@[i + j]);
            }
            return false;
        }
        j = j + 1;
    }
    proof {
        assert(cs@.subrange(i as int, i + lit@.len()) =~= lit@);
    }
    true
}

/// The end of the whitespace run starting at `i`.
fn spaces_end(cs: &Vec<char>, i: usize) -> (r: usize)
    requires
        i <= cs@.len(),
    ensures
        r as int == skip_spaces(cs@, i as int),
        i <= r <= cs@.len(),
{
    let mut j: usize = i;
    while j < cs.len() && is_space_exec(cs[j])
        invariant
            i <= j <= cs@.len(),
            skip_spaces(cs@, i as int) == skip_spaces(cs@, j as int),
        decreases cs@.len() - j,
    {
        j = j + 1;
    }
    j
}

/// The first position at or after `i` holding a double quote, or the
/// length.
fn quote_pos(cs: &Vec<char>, i: usize) -> (r: usize)
    requires
        i <= cs@.len(),
    ensures
        r as int == quote_from(cs@, i as int),
        i <= r <= cs@.len(),
{
    let mut j: usize = i;
    while j < cs.len() && cs[j] != '"'
        invariant
            i <= j <= cs@.len(),
            quote_from(cs@, i as int) == quote_from(cs@, j as int),
        decreases cs@.len() - j,
    {
        j = j + 1;
    }
    j
}

/// Attempts the embedded-token pattern at position `i`, returning the
/// token's span.
fn try_csrf_at(cs: &Vec<char>, i: usize, meta_lit: &Vec<char>, name_lit: &Vec<char>,
    content_lit: &Vec<char>) -> (r: Option<(usize, usize)>)
    requires
        meta_lit@ == "<meta"@,
        name_lit@ == "name=\"csrf-token\""@,
        content_lit@ == "content=\""@,
    ensures
        match r {
            Some(span) => spec_csrf_at(cs@, i as int) == Some(
                cs@.subrange(span.0 as int, span.1 as int),
            ) && span.0 <= span.1 <= cs@.len(),
            None => spec_csrf_at(cs@, i as int) is None,
        },
{
    proof {
        reveal_strlit("<meta");
        reveal_strlit("name=\"csrf-token\"");
        reveal_strlit("content=\"");
    }
    if !lit_at(cs, i, meta_lit) {
        return None;
    }
    proof {
        assert(i + 5 <= cs.len());
    }
    let j = spaces_end(cs, i + 5);
    if j == i + 5 {
        return None;
    }
    if !lit_at(cs, j, name_lit) {
        return None;
    }
    proof {
        assert(j + 17 <= cs.len());
    }
    let k = spaces_end(cs, j + 17);
    if k == j + 17 {
        return None;
    }
    if !lit_at(cs, k, content_lit) {
        return None;
    }
    let c0 = k + 9;
    let q = quote_pos(cs, c0);
    if q >= cs.len() {
        return None;
    }
    if q == c0 {
        return None;
    }
    Some((c0, q))
}

/// Extracts the anti-forgery token embedded in an authenticated page:
/// the capture of the leftmost occurrence of the fixed
/// `<meta name="csrf-token" content="…"` pattern.
pub fn extract_csrf(html: &str) -> (r: Option<String>)
    ensures
        match r {
            Some(t) => spec_csrf(html@) == Some(t@),
            None => spec_csrf(html@) is None,
        },
{
    let cs = str_chars(html);
    let meta_lit = str_chars("<meta");
    let name_lit = str_chars("name=\"csrf-token\"");
    let content_lit = str_chars("content=\"");
    let mut i: usize = 0;
    while i < cs.len()
        invariant
            cs@ == html@,
            meta_lit@ == "<meta"@,
            name_lit@ == "name=\"csrf-token\""@,
            content_lit@ == "content=\""@,
            i <= cs@.len(),
            spec_csrf(html@) == spec_csrf_from(cs@, i as int),
        decreases cs@.len() - i,
    {
        match try_csrf_at(&cs, i, &meta_lit, &name_lit, &content_lit) {
            Some((a, b)) => {
                let mut tok = String::new();
                let mut p: usize = a;
                while p < b
                    invariant
                        a <= p <= b <= cs@.len(),
                        tok@ == cs@.subrange(a as int, p as int),
                    decreases b - p,
                {
                    push_char(&mut tok, cs[p]);
                    proof {
                        assert(cs@.subrange(a as int, p as int + 1) =~= cs@.subrange(
                            a as int,
                            p as int,
                        ).push(cs@[p as int]));
                    }
                    p = p + 1;
                }
                proof {
                    assert(tok@ =~= cs@.subrange(a as int, b as int));
                }
                return Some(tok);
            },
            None => {
                i = i + 1;
            },
        }
    }
    None
}

/// An authenticated session: the cookie header carrying the credential,
/// and the anti-forgery token for mutating calls.
#[derive(Clone, Debug)]
pub struct Client {
    cookie: String,
    csrf: String,
}

impl Client {
    /// The cookie header value installed on every request.
    pub closed spec fn spec_cookie(&self) -> Seq<char> {
        self.cookie@
    }

    /// The anti-forgery token attached to every mutating request.
    pub closed spec fn spec_csrf(&self) -> Seq<char> {
        self.csrf@
    }

    /// Builds a session from the session credential and the text of the
    /// authenticated student page.  Fails when the credential cannot
    /// stand in a header value, and when the page embeds no
    /// anti-forgery token — the platform serves that page without one
    /// exactly when the cookie was not accepted as a login.
    pub fn new(session_token: &str, student_page_html: &str) -> (r: Result<
        Client,
        CrowdmarkError,
    >)
        ensures
            match r {
                Ok(c) => valid_header_text(session_token@) && c.spec_cookie()
                    == "cm_session_id="@ + session_token@ && spec_csrf(student_page_html@)
                    == Some(c.spec_csrf()),
                Err(CrowdmarkError::InvalidHeaderValue) => !valid_header_text(session_token@),
                Err(CrowdmarkError::NotAuthenticated(m)) => valid_header_text(session_token@)
                    && spec_csrf(student_page_html@) is None && m@ == "Missing CSRF Token"@,
                Err(_) => false,
            },
    {
        let token_chars = str_chars(session_token);
        let mut i: usize = 0;
        while i < token_chars.len()
            invariant
                token_chars@ == session_token@,
                i <= token_chars@.len(),
                forall|p: int|
                    0 <= p < i ==> valid_header_char(#[trigger] session_token@[p]),
            decreases token_chars@.len() - i,
        {
            let c = token_chars[i];
            let ok = c == '\t' || (c >= ' ' && c != '\u{7f}');
            if !ok {
                proof {
                    assert(session_token@[i as int] == c);
                    assert(!valid_header_char(c));
                }
                return Err(CrowdmarkError::InvalidHeaderValue);
            }
            i = i + 1;
        }
        let cookie = cat2("cm_session_id=", session_token);
        match extract_csrf(student_page_html) {
            Some(csrf) => Ok(Client { cookie, csrf }),
            None => Err(CrowdmarkError::NotAuthenticated("Missing CSRF Token".to_owned())),
        }
    }

    /// The cookie header value, for the caller's transport.
    pub fn cookie_header(&self) -> (r: &String)
        ensures
            r@ == self.spec_cookie(),
    {
        &self.cookie
    }

    /// The anti-forgery token, for the caller's mutating requests.
    pub fn get_csrf(&self) -> (r: &String)
        ensures
            r@ == self.spec_csrf(),
    {
        &self.csrf
    }

    /// Interprets the course listing response: a redirect status is the
    /// platform's logged-out answer, any other status carries the
    /// resource-graph document.
    pub fn list_courses(&self, status: u16, body: Option<&JsonValue>) -> (r: Result<
        Vec<Course>,
        CrowdmarkError,
    >)
        ensures
            match r {
                Ok(cs) => status != 302 && body is Some && spec_courses_outcome(*body->0)
                    == Ok::<Seq<CourseRep>, Seq<char>>(cs.deep_view()),
                Err(CrowdmarkError::NotAuthenticated(m)) => status == 302 && m@
                    == "Could not get courses"@,
                Err(CrowdmarkError::DecodeError(t)) => status != 302 && match body {
                    None => t@ == "response body is not JSON"@,
                    Some(doc) => spec_courses_outcome(*doc) matches Err(m) && t@ == m,
                },
                Err(_) => false,
            },
    {
        if status == 302 {
            return Err(CrowdmarkError::NotAuthenticated("Could not get courses".to_owned()));
        }
        match body {
            None => Err(CrowdmarkError::DecodeError("response body is not JSON".to_owned())),
            Some(doc) => decode_courses(doc),
        }
    }

    /// Interprets the assessment listing response for one course: a
    /// redirect status is the platform's logged-out answer; an answer
    /// without a usable included set marks the course id invalid.
    pub fn list_assessments(&self, status: u16, body: Option<&JsonValue>) -> (r: Result<
        Vec<Assessment>,
        CrowdmarkError,
    >)
        ensures
            match r {
                Ok(list) => status != 302 && body is Some && spec_assessments_outcome(*body->0)
                    == Ok::<Seq<AssessmentRep>, AssessmentFailure>(list.deep_view()),
                Err(CrowdmarkError::NotAuthenticated(m)) => status == 302 && m@
                    == "Could not get assessments"@,
                Err(CrowdmarkError::InvalidCourseID) => status != 302 && body is Some
                    && spec_assessments_outcome(*body->0) == Err::<Seq<AssessmentRep>,
                    AssessmentFailure>(AssessmentFailure::InvalidCourse),
                Err(CrowdmarkError::DecodeError(t)) => status != 302 && match body {
                    None => t@ == "response body is not JSON"@,
                    Some(doc) => spec_assessments_outcome(*doc) matches Err(
                        AssessmentFailure::Decode(m),
                    ) && t@ == m,
                },
                Err(_) => false,
            },
    {
        if status == 302 {
            return Err(
                CrowdmarkError::NotAuthenticated("Could not get assessments".to_owned()),
            );
        }
        match body {
            None => Err(CrowdmarkError::DecodeError("response body is not JSON".to_owned())),
            Some(doc) => decode_assessments(doc),
        }
    }
}

} // verus!
