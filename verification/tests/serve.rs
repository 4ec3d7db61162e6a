use tweet_mirror::http::status_is_success;
use tweet_mirror::serve::{browser_url, content_type, viewer, ViewerAsset};
use tweet_mirror::twitter::response::{check_body, check_status, Body};

#[test]
fn the_empty_path_names_the_index_page() {
    assert_eq!(
        viewer(""),
        ViewerAsset { path: "index.html".to_string(), content_type: "text/html".to_string() }
    );
}

#[test]
fn an_asset_is_sent_under_the_type_of_its_extension() {
    assert_eq!(viewer("assets/app.js").path, "assets/app.js");
    assert_eq!(viewer("assets/app.js").content_type, "text/javascript");
    assert_eq!(viewer("style.css").content_type, "text/css");
    assert_eq!(viewer("img/logo.PNG").content_type, "image/png");
    assert_eq!(viewer("archive.tar.gz").content_type, "application/gzip");
}

#[test]
fn an_asset_without_a_known_extension_is_sent_as_bytes() {
    assert_eq!(viewer("LICENSE").content_type, "application/octet-stream");
    assert_eq!(viewer("notes.").content_type, "application/octet-stream");
    assert_eq!(viewer("file.no-such-extension").content_type, "application/octet-stream");
}

#[test]
fn the_content_type_defaults_to_bytes() {
    assert_eq!(content_type(None), "application/octet-stream");
    assert_eq!(content_type(Some("image/gif".to_string())), "image/gif");
}

#[test]
fn the_browser_is_opened_over_https_unless_tls_is_off() {
    assert_eq!(browser_url(false, "127.0.0.1:8443"), "https://127.0.0.1:8443/");
    assert_eq!(browser_url(true, "127.0.0.1:8080"), "http://127.0.0.1:8080/");
    assert_eq!(browser_url(true, "[::1]:80"), "http://[::1]:80/");
}

#[test]
fn success_is_a_status_from_200_to_299() {
    for status in [200u16, 204, 299] {
        assert!(status_is_success(status));
    }
    for status in [0u16, 100, 199, 300, 404, 500, u16::MAX] {
        assert!(!status_is_success(status));
    }
}

#[test]
fn a_status_that_is_no_success_is_a_failure_with_the_body() {
    assert_eq!(check_status(200, "{}"), None);
    assert_eq!(
        check_status(429, "{\"title\":\"Too Many Requests\"}"),
        Some("Response was not successful: 429\n{\"title\":\"Too Many Requests\"}".to_string())
    );
    assert_eq!(check_status(301, ""), Some("Response was not successful: 301\n".to_string()));
}

#[test]
fn a_body_of_data_is_no_failure() {
    assert_eq!(check_body("{\"data\":[]}", Body::Data), None);
}

#[test]
fn a_body_of_errors_is_the_failure() {
    assert_eq!(
        check_body("{\"errors\":[{\"detail\":\"no\"}]}", Body::Errors),
        Some("{\"errors\":[{\"detail\":\"no\"}]}".to_string())
    );
}

#[test]
fn a_body_that_cannot_be_read_is_shown_where_it_is_json() {
    let body = Body::Unreadable {
        reason: "missing field `meta`".to_string(),
        pretty: Some("{\n  \"data\": []\n}".to_string()),
    };
    assert_eq!(
        check_body("{\"data\":[]}", body),
        Some("Unable to deserialize due to: missing field `meta`\nContents:\n{\n  \"data\": []\n}".to_string())
    );
    let body = Body::Unreadable { reason: "expected value".to_string(), pretty: None };
    assert_eq!(check_body("<html>", body), Some("Invalid JSON".to_string()));
}
