use holo::picker::choose_random_file;
use holo::service::{HttpMethod, HttpReply, ImageOutcome, ReplyBody, ServerService};

fn text_of(reply: &HttpReply) -> &str {
    match &reply.body {
        ReplyBody::Text(t) => t.as_str(),
        ReplyBody::Bytes(_) => panic!("expected a text body"),
    }
}

#[test]
fn get_img_is_routed_to_the_image_endpoint() {
    let service = ServerService;
    let r = service.route(HttpMethod::Get, &String::from("/img"));
    assert!(r.is_none());
}

#[test]
fn other_paths_get_not_found() {
    let service = ServerService;
    let reply = service.route(HttpMethod::Get, &String::from("/nope")).unwrap();
    assert_eq!(reply.status, 404);
    assert!(reply.content_type.is_none());
    assert_eq!(text_of(&reply), "Not Found");
    let root = service.route(HttpMethod::Get, &String::from("/")).unwrap();
    assert_eq!(root.status, 404);
}

#[test]
fn non_get_methods_are_not_allowed() {
    let service = ServerService;
    let reply = service.route(HttpMethod::Other, &String::from("/img")).unwrap();
    assert_eq!(reply.status, 405);
    assert!(reply.content_type.is_none());
    assert_eq!(text_of(&reply), "Method Not Allowed");
}

#[test]
fn empty_directory_yields_404_with_fixed_body() {
    // End to end for an empty image directory: no file can be chosen, and
    // the reply is a plain 404 that depends on no file content.
    let files: Vec<String> = Vec::new();
    assert!(choose_random_file(&files).is_none());
    let service = ServerService;
    let reply = service.image_reply(ImageOutcome::NoImages);
    assert_eq!(reply.status, 404);
    assert!(reply.content_type.is_none());
    assert_eq!(text_of(&reply), "No images found");
}

#[test]
fn unreadable_file_yields_500() {
    let service = ServerService;
    let reply = service.image_reply(ImageOutcome::ReadError);
    assert_eq!(reply.status, 500);
    assert!(reply.content_type.is_none());
    assert_eq!(text_of(&reply), "Failed to read image");
}

#[test]
fn served_image_carries_guessed_content_type() {
    let service = ServerService;
    let bytes = vec![1u8, 2, 3, 4];
    let reply = service.image_reply(ImageOutcome::Image(String::from("img/photo.png"), bytes.clone()));
    assert_eq!(reply.status, 200);
    assert_eq!(reply.content_type.as_deref(), Some("image/png"));
    match &reply.body {
        ReplyBody::Bytes(d) => assert_eq!(d, &bytes),
        ReplyBody::Text(_) => panic!("expected the file bytes"),
    }
}

#[test]
fn unknown_extension_falls_back_to_octet_stream() {
    let service = ServerService;
    let reply = service.image_reply(ImageOutcome::Image(String::from("mystery.zzz"), Vec::new()));
    assert_eq!(reply.content_type.as_deref(), Some("application/octet-stream"));
}

#[test]
fn jpeg_extension_is_guessed() {
    let service = ServerService;
    let reply = service.image_reply(ImageOutcome::Image(String::from("a/b/c.jpg"), vec![9u8]));
    assert_eq!(reply.content_type.as_deref(), Some("image/jpeg"));
}
