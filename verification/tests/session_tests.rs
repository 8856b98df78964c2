use crowdmark::client::{assessments_url, courses_url, extract_csrf, student_page_url, Client};
use crowdmark::error::CrowdmarkError;
use crowdmark::image::rgba_to_rgb;
use crowdmark::text::{cat2, i64_to_string, u64_to_string};
use crowdmark::{LoginDetails, OutputFormat};

#[test]
fn csrf_token_is_extracted_from_the_fixed_pattern() {
    let html = "<html><head><meta name=\"csrf-token\" content=\"tok123\"></head></html>";
    assert_eq!(extract_csrf(html).unwrap(), "tok123");
}

#[test]
fn csrf_extraction_tolerates_any_whitespace_run() {
    let html = "x<meta \n\t name=\"csrf-token\" \r\n content=\"a-b.c=\">y";
    assert_eq!(extract_csrf(html).unwrap(), "a-b.c=");
}

#[test]
fn csrf_extraction_takes_the_leftmost_match() {
    let html = "<meta name=\"csrf-token\" content=\"first\">\
                <meta name=\"csrf-token\" content=\"second\">";
    assert_eq!(extract_csrf(html).unwrap(), "first");
}

#[test]
fn csrf_extraction_fails_without_a_match() {
    assert!(extract_csrf("<html><meta name=\"other\" content=\"x\"></html>").is_none());
    assert!(extract_csrf("<meta name=\"csrf-token\" content=\"\">").is_none());
    assert!(extract_csrf("<metaname=\"csrf-token\" content=\"x\">").is_none());
    assert!(extract_csrf("<meta name=\"csrf-token\" content=\"unterminated").is_none());
    assert!(extract_csrf("").is_none());
}

#[test]
fn session_stores_cookie_and_token() {
    let html = "<meta name=\"csrf-token\" content=\"tok\">";
    let client = Client::new("secret123", html).unwrap();
    assert_eq!(client.cookie_header(), "cm_session_id=secret123");
    assert_eq!(client.get_csrf(), "tok");
}

#[test]
fn session_rejects_a_credential_with_control_characters() {
    let html = "<meta name=\"csrf-token\" content=\"tok\">";
    let err = Client::new("bad\ntoken", html).unwrap_err();
    assert!(matches!(err, CrowdmarkError::InvalidHeaderValue));
}

#[test]
fn session_without_embedded_token_is_not_authenticated() {
    let err = Client::new("secret123", "<html>login page</html>").unwrap_err();
    assert!(matches!(err, CrowdmarkError::NotAuthenticated(m) if m == "Missing CSRF Token"));
}

#[test]
fn endpoints_are_built_from_the_fixed_base() {
    assert_eq!(student_page_url(), "https://app.crowdmark.com/student");
    assert_eq!(
        courses_url(),
        "https://app.crowdmark.com/api/v2/student/courses?include[]=course-archivation"
    );
    assert_eq!(
        assessments_url("c-9"),
        "https://app.crowdmark.com/api/v2/student/assignments?fields[exam-masters][]=type&fields[exam-masters][]=title&filter[course]=c-9"
    );
}

#[test]
fn decimal_rendering_matches_the_usual_notation() {
    assert_eq!(u64_to_string(0), "0");
    assert_eq!(u64_to_string(7), "7");
    assert_eq!(u64_to_string(1234567890), "1234567890");
    assert_eq!(i64_to_string(-42), "-42");
    assert_eq!(i64_to_string(0), "0");
    assert_eq!(i64_to_string(i64::MIN), "-9223372036854775808");
    assert_eq!(cat2("ab", "cd"), "abcd");
}

#[test]
fn transparent_pixels_become_white_and_others_unpremultiply() {
    let pixels: [u8; 12] = [255, 0, 0, 255, 10, 20, 30, 0, 100, 50, 0, 200];
    let rgb = rgba_to_rgb(&pixels);
    assert_eq!(rgb, vec![255, 0, 0, 255, 255, 255, 127, 63, 0]);
}

#[test]
fn trailing_pixel_fragments_are_dropped() {
    let pixels: [u8; 6] = [1, 2, 3, 255, 9, 9];
    let rgb = rgba_to_rgb(&pixels);
    assert_eq!(rgb, vec![1, 2, 3]);
}

#[test]
fn channel_saturation_caps_at_full_intensity() {
    let pixels: [u8; 4] = [200, 3, 0, 10];
    let rgb = rgba_to_rgb(&pixels);
    assert_eq!(rgb, vec![255, 76, 0]);
}

#[test]
fn login_details_hold_their_credentials() {
    let d = LoginDetails::new("me@example.org".to_string(), "pw".to_string());
    assert_eq!(d.email(), "me@example.org");
    assert_eq!(d.password(), "pw");
}

#[test]
fn output_formats_are_distinct() {
    assert!(OutputFormat::Pretty != OutputFormat::Plain);
    assert!(OutputFormat::Plain != OutputFormat::Json);
    let f = OutputFormat::Plain;
    assert!(matches!(f, OutputFormat::Plain));
}
