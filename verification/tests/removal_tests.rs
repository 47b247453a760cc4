use matting::datauri::decode_data_uri;
use matting::removal::build_removal_request;
use matting::removal::removal_response_outcome;
use matting::MattingError;

#[test]
fn request_carries_the_documented_fields() {
    let req = build_removal_request("shots/cat.png", "SECRET-REDACTED".to_string(), vec![9, 9]).unwrap();
    assert_eq!(req.endpoint, "https://api.remove.bg/v1.0/removebg");
    assert_eq!(req.api_key_header, "X-Api-Key");
    assert_eq!(req.api_key, "SECRET-REDACTED");
    assert_eq!(req.image_field_name, "image_file");
    assert_eq!(req.upload_file_name, "file.png");
    assert_eq!(req.size_field_name, "size");
    assert_eq!(req.size_field_value, "auto");
    assert_eq!(req.extension, "png");
    assert_eq!(req.contents, vec![9, 9]);
}

#[test]
fn request_needs_an_extension() {
    assert!(matches!(
        build_removal_request("shots/cat", "k".to_string(), vec![]),
        Err(MattingError::InvalidPath)
    ));
}

#[test]
fn forbidden_status_yields_forbidden_and_no_output() {
    let r = removal_response_outcome("png", "/out", 1700000000000, 403, &vec![1, 2, 3]);
    assert!(matches!(r, Err(MattingError::Forbidden(403))));
}

#[test]
fn other_failing_statuses_yield_network_errors() {
    let r = removal_response_outcome("png", "/out", 1, 500, &vec![]);
    match r {
        Err(MattingError::NetworkError(m)) => assert_eq!(m, "HTTP status 500"),
        _ => panic!("expected a network error"),
    }
    let r = removal_response_outcome("png", "/out", 1, 301, &vec![]);
    match r {
        Err(MattingError::NetworkError(m)) => assert_eq!(m, "HTTP status 301"),
        _ => panic!("expected a network error"),
    }
}

#[test]
fn success_names_the_output_after_the_timestamp() {
    let body: Vec<u8> = vec![11, 22, 33, 44];
    let saved = removal_response_outcome("png", "/out/dir", 1234, 200, &body).unwrap();
    assert_eq!(saved.save_path, "/out/dir/1234.png");
    assert_eq!(saved.result.image_path, "/out/dir/1234.png");
    let (ext, decoded) = decode_data_uri(&saved.result.image_data_uri).unwrap();
    assert_eq!(ext, "png");
    assert_eq!(decoded, body);
}

#[test]
fn distinct_timestamps_give_distinct_outputs() {
    let body1: Vec<u8> = vec![1, 1, 1];
    let body2: Vec<u8> = vec![2, 2];
    let s1 = removal_response_outcome("png", "/out", 1700000000123, 200, &body1).unwrap();
    let s2 = removal_response_outcome("png", "/out", 1700000000124, 200, &body2).unwrap();
    assert_ne!(s1.save_path, s2.save_path);
    let (_, d1) = decode_data_uri(&s1.result.image_data_uri).unwrap();
    let (_, d2) = decode_data_uri(&s2.result.image_data_uri).unwrap();
    assert_eq!(d1, body1);
    assert_eq!(d2, body2);
}
