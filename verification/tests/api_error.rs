use oproxy::api_error::ApiError;
use oproxy::exchange::RequestContext;
use oproxy::playback::{prepare_replay, replay_sends_body};

#[test]
fn each_variant_maps_to_its_status() {
    let cases = [
        (ApiError::BadRequest("x".into()), 400),
        (ApiError::Unauthorized("x".into()), 401),
        (ApiError::Forbidden("x".into()), 403),
        (ApiError::NotFound("x".into()), 404),
        (ApiError::Unprocessable("x".into()), 422),
        (ApiError::Internal("x".into()), 500),
    ];
    for (err, expected) in cases {
        assert_eq!(err.parts().0, expected);
    }
}

#[test]
fn renders_json_error_body() {
    let err = ApiError::NotFound("missing".into());
    assert_eq!(err.parts(), (404, "missing"));
}

fn recorded(method: &str, uri: &str, body: &str) -> RequestContext {
    RequestContext {
        method: method.to_string(),
        uri: uri.to_string(),
        headers: vec![],
        body: body.to_string(),
        host: "example.com".to_string(),
    }
}

#[test]
fn only_valid_methods_and_urls_are_replayed() {
    assert!(prepare_replay(&recorded("GET", "http://example.com/a", "")));
    assert!(prepare_replay(&recorded("PURGE", "https://example.com/", "")));
    assert!(!prepare_replay(&recorded("G ET", "http://example.com/a", "")));
    assert!(!prepare_replay(&recorded("GET", "/relative", "")));
    assert!(!replay_sends_body(&recorded("GET", "http://example.com/a", "")));
    assert!(replay_sends_body(&recorded("POST", "http://example.com/a", "x")));
}
