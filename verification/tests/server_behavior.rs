use upload_server::response::{file_response, handle_rejection, upload_outcome, HttpBody, RejectionKind};
use upload_server::routing::{route_request, HttpMethod, RouteDecision};
use upload_server::store::DirectoryModel;
use upload_server::upload::{concat_chunks, plan_part, process_upload, UploadPart};

fn text_body(body: HttpBody) -> String {
    match body {
        HttpBody::Text(t) => t,
        HttpBody::Bytes(_) => panic!("expected a text body"),
    }
}

fn byte_body(body: HttpBody) -> Vec<u8> {
    match body {
        HttpBody::Bytes(b) => b,
        HttpBody::Text(_) => panic!("expected a byte body"),
    }
}

#[test]
fn upload_within_limit_returns_success() {
    for size in [0u64, 1, 19_999_999, 20_000_000] {
        let r = upload_outcome(size);
        assert_eq!(r.status, 200);
        assert_eq!(text_body(r.body), "Upload successful!");
    }
}

#[test]
fn upload_over_limit_rejected() {
    for size in [20_000_001u64, 30_000_000, u64::MAX] {
        let r = upload_outcome(size);
        assert_eq!(r.status, 400);
        assert_eq!(text_body(r.body), "Payload too large");
    }
}

#[test]
fn rejection_not_found_maps_to_404() {
    let r = handle_rejection(&RejectionKind::NotFound);
    assert_eq!(r.status, 404);
    assert_eq!(text_body(r.body), "Not Found");
}

#[test]
fn rejection_payload_too_large_maps_to_400() {
    let r = handle_rejection(&RejectionKind::PayloadTooLarge);
    assert_eq!(r.status, 400);
    assert_eq!(text_body(r.body), "Payload too large");
}

#[test]
fn rejection_other_maps_to_500() {
    let r = handle_rejection(&RejectionKind::Other);
    assert_eq!(r.status, 500);
    assert_eq!(text_body(r.body), "Internal Server Error");
}

#[test]
fn named_part_plans_write_under_its_name() {
    let cmd = plan_part(&Some("a.txt".to_owned()), &vec![b"hello".to_vec()]);
    assert_eq!(cmd.path, "uploads_test/a.txt");
    assert_eq!(cmd.contents, b"hello".to_vec());
}

#[test]
fn missing_filename_uses_default_name() {
    let cmd = plan_part(&None, &vec![b"shot".to_vec()]);
    assert_eq!(cmd.path, "uploads_test/photo.png");
    assert_eq!(cmd.contents, b"shot".to_vec());
}

#[test]
fn chunks_concatenate_in_arrival_order() {
    let chunks = vec![b"he".to_vec(), b"llo".to_vec(), Vec::new(), b"!".to_vec()];
    assert_eq!(concat_chunks(&chunks), b"hello!".to_vec());
    assert_eq!(concat_chunks(&Vec::new()), Vec::<u8>::new());
}

#[test]
fn uploaded_part_is_stored_exactly() {
    let mut dir = DirectoryModel::new();
    let cmd = plan_part(&Some("a.txt".to_owned()), &vec![b"hello".to_vec()]);
    let path = cmd.path.clone();
    dir.write(cmd.path, cmd.contents);
    assert_eq!(path, "uploads_test/a.txt");
    assert_eq!(dir.read(&path), Some(&b"hello".to_vec()));
}

#[test]
fn second_upload_overwrites_first() {
    let mut dir = DirectoryModel::new();
    let first = plan_part(&Some("a.txt".to_owned()), &vec![b"first".to_vec()]);
    dir.write(first.path, first.contents);
    let second = plan_part(&Some("a.txt".to_owned()), &vec![b"second".to_vec()]);
    dir.write(second.path, second.contents);
    let stored = dir.read(&"uploads_test/a.txt".to_owned());
    assert_eq!(stored, Some(&b"second".to_vec()));
}

#[test]
fn reupload_of_identical_content_is_byte_identical() {
    let mut dir = DirectoryModel::new();
    let once = plan_part(&Some("a.txt".to_owned()), &vec![b"same".to_vec()]);
    dir.write(once.path, once.contents);
    let again = plan_part(&Some("a.txt".to_owned()), &vec![b"same".to_vec()]);
    dir.write(again.path, again.contents);
    let stored = dir.read(&"uploads_test/a.txt".to_owned());
    assert_eq!(stored, Some(&b"same".to_vec()));
}

#[test]
fn empty_form_stores_nothing() {
    let mut dir = DirectoryModel::new();
    process_upload(&mut dir, &Vec::new());
    assert_eq!(dir.read(&"uploads_test/photo.png".to_owned()), None);
}

#[test]
fn filename_less_parts_overwrite_each_other() {
    let mut dir = DirectoryModel::new();
    let parts = vec![
        UploadPart { filename: None, chunks: vec![b"one".to_vec()] },
        UploadPart { filename: None, chunks: vec![b"two".to_vec()] },
    ];
    process_upload(&mut dir, &parts);
    let stored = dir.read(&"uploads_test/photo.png".to_owned());
    assert_eq!(stored, Some(&b"two".to_vec()));
}

#[test]
fn found_file_is_served_with_exact_bytes() {
    let bytes = vec![0x25u8, 0x50, 0x44, 0x46, 0x00, 0xff];
    let r = file_response(Some(bytes.clone()));
    assert_eq!(r.status, 200);
    assert_eq!(byte_body(r.body), bytes);
}

#[test]
fn absent_file_yields_not_found() {
    let r = file_response(None);
    assert_eq!(r.status, 404);
    assert_eq!(text_body(r.body), "Not Found");
}

#[test]
fn post_upload_routes_to_upload_handler() {
    let r = route_request(&HttpMethod::Post, &vec!["upload".to_owned()]);
    assert!(matches!(r, RouteDecision::Upload));
}

#[test]
fn upload_route_ignores_trailing_segments() {
    let r = route_request(&HttpMethod::Post, &vec!["upload".to_owned(), "extra".to_owned()]);
    assert!(matches!(r, RouteDecision::Upload));
}

#[test]
fn get_files_routes_to_static_serving() {
    let r = route_request(
        &HttpMethod::Get,
        &vec!["files".to_owned(), "docs".to_owned(), "report.pdf".to_owned()],
    );
    match r {
        RouteDecision::ServeFile(rest) => {
            assert_eq!(rest, vec!["docs".to_owned(), "report.pdf".to_owned()]);
        }
        _ => panic!("expected the static file route"),
    }
}

#[test]
fn unmatched_request_is_a_routing_miss() {
    let miss = route_request(&HttpMethod::Get, &vec!["nonexistent".to_owned(), "path".to_owned()]);
    assert!(matches!(miss, RouteDecision::NoMatch));
    let r = handle_rejection(&RejectionKind::NotFound);
    assert_eq!(r.status, 404);
    assert_eq!(text_body(r.body), "Not Found");
}

#[test]
fn wrong_method_misses_both_routes() {
    assert!(matches!(
        route_request(&HttpMethod::Get, &vec!["upload".to_owned()]),
        RouteDecision::NoMatch
    ));
    assert!(matches!(
        route_request(&HttpMethod::Post, &vec!["files".to_owned(), "a.txt".to_owned()]),
        RouteDecision::NoMatch
    ));
    assert!(matches!(
        route_request(&HttpMethod::Other, &vec!["upload".to_owned()]),
        RouteDecision::NoMatch
    ));
    assert!(matches!(route_request(&HttpMethod::Post, &Vec::new()), RouteDecision::NoMatch));
}
