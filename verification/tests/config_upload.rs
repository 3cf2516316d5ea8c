use village_cli::config::parse_config;
use village_cli::upload::{
    build_upload_request, classify_response, context_content_type, context_field_name,
    context_file_name, script_field_name,
};
use village_cli::DeployError;

#[test]
fn config_id_is_extracted() {
    let c = parse_config("id: my-script\n").unwrap();
    assert_eq!(c.id, "my-script");
    let c = parse_config("name: other\nid: abc\n").unwrap();
    assert_eq!(c.id, "abc");
}

#[test]
fn config_without_id_is_a_parse_error() {
    assert!(matches!(parse_config("name: x\n"), Err(DeployError::ConfigParseError)));
    assert!(matches!(parse_config("id: [\n"), Err(DeployError::ConfigParseError)));
    assert!(matches!(parse_config("id: 7\n"), Err(DeployError::ConfigParseError)));
}

#[test]
fn upload_request_carries_endpoint_id_and_bearer() {
    let r = build_upload_request("http://localhost:8000", "script-1", "tok-xyz");
    assert_eq!(r.url, "http://localhost:8000/script/build");
    assert_eq!(r.script_id, "script-1");
    assert_eq!(r.authorization, "Bearer tok-xyz");
}

#[test]
fn multipart_constants() {
    assert_eq!(script_field_name(), "script_id");
    assert_eq!(context_field_name(), "context");
    assert_eq!(context_file_name(), "context.tar.gz");
    assert_eq!(context_content_type(), "application/gzip");
}

#[test]
fn success_statuses_are_ok() {
    assert!(classify_response(200, String::new()).is_ok());
    assert!(classify_response(204, String::new()).is_ok());
    assert!(classify_response(299, String::new()).is_ok());
}

#[test]
fn failed_upload_surfaces_status_and_body() {
    let r = classify_response(404, "not found".to_string());
    match r {
        Err(DeployError::UpstreamError { status, body }) => {
            assert_eq!(status, 404);
            assert_eq!(body, "not found");
        }
        _ => panic!("expected an upstream error"),
    }
    assert!(matches!(
        classify_response(300, String::new()),
        Err(DeployError::UpstreamError { .. })
    ));
    assert!(matches!(
        classify_response(500, String::new()),
        Err(DeployError::UpstreamError { .. })
    ));
}
