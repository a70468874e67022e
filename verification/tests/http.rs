use xrpals_lps::http::{handle_rejection, success, Response, MAX_BODY_BYTES, PORT};

#[test]
fn unmatched_route_is_not_found() {
    let response = handle_rejection(true, false);
    assert_eq!(response, Response { status: 404, body: "Not found".to_string() });
}

#[test]
fn oversized_payload_is_a_bad_request() {
    let response = handle_rejection(false, true);
    assert_eq!(response, Response { status: 400, body: "Payload too large".to_string() });
}

#[test]
fn any_other_rejection_is_an_internal_error() {
    let response = handle_rejection(false, false);
    assert_eq!(response, Response { status: 500, body: "Internal Server Error".to_string() });
}

#[test]
fn not_found_is_answered_before_payload_too_large() {
    let response = handle_rejection(true, true);
    assert_eq!(response.status, 404);
    assert_eq!(response.body, "Not found");
}

#[test]
fn finished_upload_is_answered_with_success() {
    assert_eq!(success(), Response { status: 200, body: "success".to_string() });
}

#[test]
fn limits_of_the_server() {
    assert_eq!(MAX_BODY_BYTES, 5_000_000);
    assert_eq!(PORT, 3030);
}
