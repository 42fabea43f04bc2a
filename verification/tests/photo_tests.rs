use frogbot::dispatch::finish_photo;
use frogbot::photo::extract_photo_url;

#[test]
fn fetch_extracts_regular_url() {
    let body = "{\"urls\":{\"regular\":\"https://x/y.jpg\"}}";
    let res = extract_photo_url(200, body).unwrap();
    assert_eq!(res.url, "https://x/y.jpg");
}

#[test]
fn fetch_skips_other_members() {
    let body = "{\"id\":\"abc123\",\"width\":4000,\"tags\":[\"a\",\"b\"],\"links\":{\"self\":\"https://api/x\"},\"urls\":{\"raw\":\"https://x/raw.jpg\",\"regular\":\"https://x/y.jpg\"},\"user\":{\"name\":\"someone\"}}";
    let res = extract_photo_url(200, body).unwrap();
    assert_eq!(res.url, "https://x/y.jpg");
}

#[test]
fn fetch_handles_whitespace() {
    let body = " {\n  \"urls\" : {\n    \"regular\" : \"https://x/y.jpg\"\n  }\n} ";
    let res = extract_photo_url(200, body).unwrap();
    assert_eq!(res.url, "https://x/y.jpg");
}

#[test]
fn fetch_rejects_failure_status() {
    let body = "{\"urls\":{\"regular\":\"https://x/y.jpg\"}}";
    let err = extract_photo_url(404, body).unwrap_err();
    assert_eq!(err.cause, "the photo service returned a failure status");
}

#[test]
fn fetch_status_boundaries() {
    let body = "{\"urls\":{\"regular\":\"https://x/y.jpg\"}}";
    assert!(extract_photo_url(199, body).is_err());
    assert!(extract_photo_url(200, body).is_ok());
    assert!(extract_photo_url(299, body).is_ok());
    assert!(extract_photo_url(300, body).is_err());
}

#[test]
fn fetch_rejects_malformed_bodies() {
    for body in [
        "",
        "not json",
        "{}",
        "[1,2,3]",
        "{\"urls\":{}}",
        "{\"urls\":{\"raw\":\"https://x/raw.jpg\"}}",
        "{\"urls\":\"https://x/y.jpg\"}",
        "{\"urls\":{\"regular\":42}}",
        "{\"urls\":{\"regular\":\"unterminated",
        "{\"urls\":{\"regular\":\"x\"",
        "{\"urls\":{\"regular\":\"x\"}",
        "{\"a\":[1,2},\"urls\":{\"regular\":\"https://x/y.jpg\"}}",
        "{\"urls\":{\"regular\":\"https://x/y.jpg\"}}trailing",
        "{\"urls\":{\"regular\":\"https://x/y.jpg\"},}",
        "{\"urls\":{\"regular\":\"https://x/y.jpg\"}quux}",
        "{\"other\":{\"regular\":\"https://x/y.jpg\"}}",
    ] {
        let err = extract_photo_url(200, body).unwrap_err();
        assert_eq!(err.cause, "the photo service returned an unusable body");
    }
}

#[test]
fn fetch_keeps_escapes_raw() {
    let body = "{\"urls\":{\"regular\":\"a\\\"b\"}}";
    let res = extract_photo_url(200, body).unwrap();
    assert_eq!(res.url, "a\\\"b");
}

#[test]
fn finish_photo_success_is_url() {
    let body = "{\"urls\":{\"regular\":\"https://x/y.jpg\"}}";
    let reply = finish_photo(200, body);
    assert_eq!(reply.text, "https://x/y.jpg");
}

#[test]
fn finish_photo_failure_is_generic() {
    assert_eq!(finish_photo(500, "{}").text, "Could not fetch a photo right now.");
    assert_eq!(finish_photo(200, "oops").text, "Could not fetch a photo right now.");
}
