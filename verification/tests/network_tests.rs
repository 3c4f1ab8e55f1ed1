//! The patch-check wire protocol: response parsing and request rendering.

use updater::network::{parse_patch_check_response, patches_check_url, PatchCheckRequest};

#[test]
fn check_patch_request_response_deserialization() {
    let data = r###"
    {
        "patch_available": true,
        "patch": {
            "number": 1,
            "download_url": "https://storage.googleapis.com/patch_artifacts/17a28ec1-00cf-452d-bdf9-dbb9acb78600/dlc.vmcode",
            "hash": "#"
        }
    }"###;

    let response = parse_patch_check_response(data).unwrap();

    assert!(response.patch_available == true);
    assert!(response.patch.is_some());

    let patch = response.patch.unwrap();
    assert_eq!(patch.number, 1);
    assert_eq!(patch.download_url, "https://storage.googleapis.com/patch_artifacts/17a28ec1-00cf-452d-bdf9-dbb9acb78600/dlc.vmcode");
    assert_eq!(patch.hash, "#");
}

#[test]
fn response_fields_in_any_order() {
    let data = "{\"patch\":{\"hash\":\"h\",\"is_diff\":true,\"number\":4,\
                \"download_url\":\"u\"},\"patch_available\":true}";
    let response = parse_patch_check_response(data).unwrap();
    assert!(response.patch_available);
    let patch = response.patch.unwrap();
    assert_eq!(patch.number, 4);
    assert_eq!(patch.hash, "h");
    assert_eq!(patch.download_url, "u");
    assert!(patch.is_diff);
}

#[test]
fn response_without_patch() {
    let response = parse_patch_check_response("{\"patch_available\":false}").unwrap();
    assert!(!response.patch_available);
    assert!(response.patch.is_none());

    let response = parse_patch_check_response("{\"patch_available\":false,\"patch\":null}").unwrap();
    assert!(!response.patch_available);
    assert!(response.patch.is_none());
}

#[test]
fn response_ignores_unknown_primitive_fields() {
    let data = "{\"rollout\":7,\"patch_available\":true,\"note\":\"hi\",\
                \"patch\":{\"number\":2,\"download_url\":\"u\",\"hash\":\"h\",\"extra\":null}}";
    let response = parse_patch_check_response(data).unwrap();
    let patch = response.patch.unwrap();
    assert_eq!(patch.number, 2);
    assert!(!patch.is_diff);
}

#[test]
fn response_missing_required_fields_is_rejected() {
    assert!(parse_patch_check_response("{}").is_none());
    assert!(parse_patch_check_response("{\"patch\":null}").is_none());
    assert!(
        parse_patch_check_response("{\"patch_available\":true,\"patch\":{\"number\":1}}").is_none()
    );
    assert!(parse_patch_check_response("nonsense").is_none());
}

#[test]
fn response_with_an_oversized_number_is_rejected() {
    let data = "{\"patch_available\":true,\"patch\":{\"number\":99999999999999999999999999,\
                \"download_url\":\"u\",\"hash\":\"h\"}}";
    assert!(parse_patch_check_response(data).is_none());
}

#[test]
fn request_renders_with_and_without_patch_number() {
    let req = PatchCheckRequest {
        app_id: "1234".to_string(),
        channel: "stable".to_string(),
        release_version: "1.0.0".to_string(),
        patch_number: None,
        platform: "linux".to_string(),
        arch: "x86_64".to_string(),
    };
    assert_eq!(
        req.render(),
        "{\"app_id\":\"1234\",\"channel\":\"stable\",\"release_version\":\"1.0.0\",\
         \"platform\":\"linux\",\"arch\":\"x86_64\"}"
    );
    let req = PatchCheckRequest {
        patch_number: Some(12),
        ..req
    };
    assert_eq!(
        req.render(),
        "{\"app_id\":\"1234\",\"channel\":\"stable\",\"release_version\":\"1.0.0\",\
         \"patch_number\":12,\"platform\":\"linux\",\"arch\":\"x86_64\"}"
    );
}

#[test]
fn patches_check_url_appends_the_endpoint() {
    assert_eq!(
        patches_check_url("https://api.shorebird.dev"),
        "https://api.shorebird.dev/api/v1/patches/check"
    );
}
