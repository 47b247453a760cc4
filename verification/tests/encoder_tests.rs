use matting::datauri::decode_data_uri;
use matting::datauri::make_data_uri;
use matting::datauri::split_data_uri;
use matting::images::encode_image;
use matting::images::open_image_outcome;
use matting::MattingError;

#[test]
fn encode_then_decode_round_trips() {
    let bytes: Vec<u8> = vec![0, 1, 2, 250, 255, 17];
    let r = encode_image("photos/cat.png", &bytes).unwrap();
    assert_eq!(r.image_path, "photos/cat.png");
    let (ext, decoded) = decode_data_uri(&r.image_data_uri).unwrap();
    assert_eq!(ext, "png");
    assert_eq!(decoded, bytes);
}

#[test]
fn encode_matches_standard_base64() {
    let bytes: Vec<u8> = vec![7, 8, 9, 200];
    let r = encode_image("/a/b/pic.jpeg", &bytes).unwrap();
    let expected = format!(
        "data:image/jpeg;base64,{}",
        base64::Engine::encode(&base64::engine::general_purpose::STANDARD, &bytes)
    );
    assert_eq!(r.image_data_uri, expected);
    assert_eq!(r.image_path, "/a/b/pic.jpeg");
}

#[test]
fn extension_is_used_verbatim_without_normalization() {
    let bytes: Vec<u8> = vec![1];
    let r = encode_image("x.jpg", &bytes).unwrap();
    assert!(r.image_data_uri.starts_with("data:image/jpg;base64,"));
}

#[test]
fn encode_of_empty_file_round_trips() {
    let bytes: Vec<u8> = vec![];
    let r = encode_image("empty.png", &bytes).unwrap();
    assert_eq!(r.image_data_uri, "data:image/png;base64,");
    let (ext, decoded) = decode_data_uri(&r.image_data_uri).unwrap();
    assert_eq!(ext, "png");
    assert_eq!(decoded, bytes);
}

#[test]
fn encode_without_extension_is_invalid_path() {
    let bytes: Vec<u8> = vec![1, 2];
    assert!(matches!(
        encode_image("no_extension", &bytes),
        Err(MattingError::InvalidPath)
    ));
    assert!(matches!(
        encode_image("/dotted.dir/plain", &bytes),
        Err(MattingError::InvalidPath)
    ));
    assert!(matches!(
        encode_image("/home/user/.bashrc", &bytes),
        Err(MattingError::InvalidPath)
    ));
}

#[test]
fn cancelled_image_pick_is_empty_success() {
    let r = open_image_outcome(None).unwrap();
    assert_eq!(r.image_data_uri, "");
    assert_eq!(r.image_path, "");
}

#[test]
fn selected_image_pick_encodes() {
    let bytes: Vec<u8> = vec![42, 0, 42];
    let r = open_image_outcome(Some(("pick.png".to_string(), bytes.clone()))).unwrap();
    assert_eq!(r.image_path, "pick.png");
    let (ext, decoded) = decode_data_uri(&r.image_data_uri).unwrap();
    assert_eq!(ext, "png");
    assert_eq!(decoded, bytes);
}

#[test]
fn make_and_split_data_uri_round_trip() {
    let uri = make_data_uri("png", "QUJD");
    assert_eq!(uri, "data:image/png;base64,QUJD");
    let (ext, payload) = split_data_uri(&uri).unwrap();
    assert_eq!(ext, "png");
    assert_eq!(payload, "QUJD");
}

#[test]
fn split_rejects_text_that_is_no_data_uri() {
    assert!(split_data_uri("hello").is_none());
    assert!(split_data_uri("data:image/png").is_none());
    assert!(split_data_uri("data:image/png;base64").is_none());
    assert!(split_data_uri("data:text/plain;base64,QUJD").is_none());
}

#[test]
fn semicolon_in_an_extension_breaks_the_round_trip() {
    // The extension is taken verbatim, so a `;` in it makes the URI's
    // first `;` fall before the `;base64,` marker and parsing fails.
    let bytes: Vec<u8> = vec![1];
    let r = encode_image("weird.p;g", &bytes).unwrap();
    assert!(r.image_data_uri.starts_with("data:image/p;g;base64,"));
    assert!(split_data_uri(&r.image_data_uri).is_none());
}

#[test]
fn decode_rejects_an_invalid_payload() {
    assert!(decode_data_uri("data:image/png;base64,!!!!").is_none());
}
