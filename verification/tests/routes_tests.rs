use preflight_rs::auth::bearer_authorized;
use preflight_rs::routes::{
    callback_allowed, callback_endpoint, check_file_size, check_upload, healthz, mixed_body,
    mixed_content_type, upload_field, version_info, ApiError, CallbackEndpoint, UploadField,
};

#[test]
fn healthz_returns_ok_with_auth() {
    assert!(bearer_authorized(Some("Bearer secret"), "secret"));
    assert_eq!(healthz(), "ok");
}

#[test]
fn refusals_map_to_http_statuses() {
    assert_eq!(ApiError::BadRequest.status_code(), 400);
    assert_eq!(ApiError::PayloadTooLarge.status_code(), 413);
    assert_eq!(ApiError::from_multipart_status(413), ApiError::PayloadTooLarge);
    assert_eq!(ApiError::from_multipart_status(400), ApiError::BadRequest);
}

#[test]
fn version_returns_service_and_dependency_versions() {
    assert!(bearer_authorized(Some("Bearer secret"), "secret"));
    let info = version_info("0.1.0", "10.07.1".to_owned());
    assert_eq!(info.name, "preflight-rs");
    assert!(!info.version.is_empty());
    assert_eq!(info.source_url, "https://github.com/cygnusdevs/preflight-rs");
    assert_eq!(info.license, "AGPL-3.0-or-later");
    assert_eq!(info.ghostscript_version, "10.07.1");
}

#[test]
fn upload_fields_are_selected_by_exact_name() {
    assert_eq!(upload_field("file"), UploadField::File);
    assert_eq!(upload_field("callback_url"), UploadField::CallbackUrl);
    assert_eq!(upload_field("max_pages"), UploadField::MaxPages);
    assert_eq!(upload_field("fit_to_page"), UploadField::FitToPage);
    assert_eq!(upload_field("File"), UploadField::Ignored);
    assert_eq!(upload_field("page_count_max"), UploadField::Ignored);
}

#[test]
fn file_size_limit_is_inclusive() {
    assert_eq!(check_file_size(128, 128), Ok(()));
    assert_eq!(check_file_size(129, 128), Err(ApiError::PayloadTooLarge));
}

#[test]
fn callbacks_need_a_secure_allowed_host() {
    let allowed = vec!["Example.test".to_owned(), "127.0.0.1".to_owned()];
    let https = callback_endpoint("https://example.TEST/hook").unwrap();
    assert!(callback_allowed(&https, false, &allowed));
    let plain = callback_endpoint("http://example.test/hook").unwrap();
    assert!(!callback_allowed(&plain, false, &allowed));
    let local = callback_endpoint("http://127.0.0.1:9/callback").unwrap();
    assert_eq!(local.host, "127.0.0.1");
    assert!(callback_allowed(&local, true, &allowed));
    let other = CallbackEndpoint { scheme: "https".to_owned(), host: "evil.test".to_owned() };
    assert!(!callback_allowed(&other, false, &allowed));
    assert!(callback_endpoint("not a url").is_none());
    assert!(callback_endpoint("mailto:someone@example.test").is_none());
}

#[test]
fn process_requires_callback_url() {
    assert_eq!(check_upload(true, None, false, 500, true, true), Err(ApiError::BadRequest));
    assert_eq!(check_upload(true, Some(""), true, 500, true, true), Err(ApiError::BadRequest));
    assert_eq!(
        check_upload(true, Some("https://x.test"), false, 500, true, true),
        Err(ApiError::BadRequest)
    );
    assert_eq!(check_upload(true, Some("https://x.test"), true, 500, true, true), Ok(()));
}

#[test]
fn analyse_requires_pdf_file_part() {
    assert_eq!(check_upload(false, None, false, 5, true, false), Err(ApiError::BadRequest));
    assert_eq!(check_upload(false, None, false, 0, true, true), Err(ApiError::BadRequest));
    assert_eq!(check_upload(false, None, false, 5, false, true), Err(ApiError::BadRequest));
    assert_eq!(check_upload(false, None, false, 5, true, true), Ok(()));
}

#[test]
fn prepared_response_frames_json_and_pdf() {
    let body = mixed_body("B", b"{}", Some(b"%PDF"));
    let expected = "--B\r\nContent-Type: application/json\r\n\r\n{}\r\n--B\r\nContent-Type: application/pdf\r\nContent-Disposition: attachment; filename=\"prepared.pdf\"\r\n\r\n%PDF\r\n--B--\r\n";
    assert_eq!(body, expected.as_bytes());
    let no_pdf = mixed_body("B", b"{}", None);
    assert_eq!(no_pdf, b"--B\r\nContent-Type: application/json\r\n\r\n{}\r\n--B--\r\n");
    assert_eq!(mixed_content_type("B"), "multipart/mixed; boundary=B");
}
