use slightshot::upload::{interpret_reply, multipart, parse_link, preview, ImgurReply, UploadError, BOUNDARY};

#[test]
fn success_reply_yields_the_image_link() {
    let link = parse_link(
        r#"{"data":{"id":"abc","link":"https://i.imgur.com/abc.png",
        "deletehash":"del"},"success":true,"status":200}"#,
    )
    .ok()
    .unwrap();
    assert_eq!(link, "https://i.imgur.com/abc.png");
}

#[test]
fn rejected_reply_names_the_reason() {
    let error = parse_link(
        r#"{"data":{"error":"Invalid client_id"},"success":false,"status":403}"#,
    )
    .err()
    .unwrap();
    assert!(error.message().contains("Invalid client_id"));
}

#[test]
fn multipart_carries_png_and_boundary() {
    let png = vec![1, 2, 3];
    let body = multipart(&png);
    let text = String::from_utf8_lossy(&body);
    assert!(text.contains(BOUNDARY));
    assert!(text.contains("filename=\"capture.png\""));
    assert!(text.ends_with(&format!("\r\n--{BOUNDARY}--\r\n")));
    assert!(body.windows(png.len()).any(|w| w == png.as_slice()));
}

#[test]
fn non_json_replies_are_previewed() {
    let body = "x".repeat(400);
    match parse_link(&body) {
        Err(UploadError::NotJson(start)) => assert_eq!(start, "x".repeat(300)),
        _ => panic!("expected a non-JSON error"),
    }
    let short = parse_link("<html>").err().unwrap();
    assert_eq!(short.message(), "Imgur sent non-JSON: <html>");
    assert_eq!(preview("héllo"), "héllo");
}

#[test]
fn rejections_without_a_reason_and_missing_links() {
    let unknown = parse_link(r#"{"success":false}"#).err().unwrap();
    assert_eq!(unknown.message(), "Imgur rejected the upload: unknown error");
    let not_bool = parse_link(r#"{"success":"yes","data":{"link":"l"}}"#).err().unwrap();
    assert!(matches!(not_bool, UploadError::Rejected(_)));
    let no_link = parse_link(r#"{"success":true,"data":{}}"#).err().unwrap();
    assert!(matches!(no_link, UploadError::NoLink));
    assert_eq!(no_link.message(), "Imgur replied without an image link");
}

#[test]
fn interpret_reply_decides_by_the_fields() {
    let ok = interpret_reply(ImgurReply { success: Some(true), error: None, link: Some("L".to_string()) });
    assert_eq!(ok.ok(), Some("L".to_string()));
    let refused = interpret_reply(ImgurReply {
        success: Some(false),
        error: Some("\"quota\"".to_string()),
        link: Some("L".to_string()),
    });
    assert_eq!(refused.err().unwrap().message(), "Imgur rejected the upload: \"quota\"");
}

#[test]
fn multipart_frames_the_png_exactly() {
    let body = multipart(&[]);
    let text = String::from_utf8(body).unwrap();
    assert_eq!(
        text,
        format!(
            "--{BOUNDARY}\r\nContent-Disposition: form-data; name=\"type\"\r\n\r\nfile\r\n--{BOUNDARY}\r\nContent-Disposition: form-data; name=\"image\"; filename=\"capture.png\"\r\nContent-Type: image/png\r\n\r\n\r\n--{BOUNDARY}--\r\n"
        )
    );
}
