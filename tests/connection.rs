use tokyo_library::dispatch::{
    answer, index_list, location_list, metadata_list, rating_refresh_ids, reject_frame, Connection,
    FrameAction,
};
use tokyo_library::render::{image_outcome, RenderError, Rendered};
use tokyo_library::request::{encode_request, Request, RequestBody};
use tokyo_library::response::{IndexEntry, Location, MetadataEntry, ResponseBody, SystemInfo, Tag};

fn frame(nonce: &str, body: RequestBody) -> Vec<u8> {
    encode_request(&Request { nonce: nonce.to_string(), body })
}

fn entry(path: &str) -> IndexEntry {
    IndexEntry { hash: format!("h-{}", path), path: path.to_string(), rating: 0 }
}

#[test]
fn greeting_is_system_info_without_nonce() {
    let mut c = Connection::new(4);
    let r = c.greet(SystemInfo { version: "1".to_string(), platform: "linux".to_string() });
    assert!(r.nonce.is_none());
    assert!(matches!(r.body, ResponseBody::SystemInfo { .. }));
    assert!(c.is_open());
}

#[test]
fn list_locations_on_empty_catalog() {
    let mut c = Connection::new(4);
    let req = match c.on_frame(&frame("7", RequestBody::ListLocations)) {
        FrameAction::Handle(req) => req,
        FrameAction::Reply(_) => panic!("expected a handler"),
    };
    assert!(matches!(req.body, RequestBody::ListLocations));
    let r = answer(req.nonce, Ok(location_list(vec![], vec![])));
    assert_eq!(r.nonce.as_deref(), Some("7"));
    match r.body {
        ResponseBody::LocationList { locations, tags } => {
            assert!(locations.is_empty());
            assert!(tags.is_empty());
        }
        _ => panic!("expected a location list"),
    }
}

#[test]
fn missing_raw_file_answers_decode_error() {
    let mut c = Connection::new(4);
    let body = RequestBody::GetImage { file: "missing.raw".to_string(), edits: None };
    let req = match c.on_frame(&frame("3", body)) {
        FrameAction::Handle(req) => req,
        FrameAction::Reply(_) => panic!("expected a handler"),
    };
    let r = answer(req.nonce, image_outcome(Err(RenderError::Unreadable)));
    assert_eq!(r.nonce.as_deref(), Some("3"));
    match r.body {
        ResponseBody::Error { message } => assert!(message.contains("decode")),
        _ => panic!("expected an error"),
    }
}

#[test]
fn malformed_frame_is_answered_and_connection_goes_on() {
    let mut c = Connection::new(4);
    match c.on_frame(&[1, 2]) {
        FrameAction::Reply(r) => {
            assert!(r.nonce.is_none());
            match r.body {
                ResponseBody::Error { message } => assert_eq!(message, "malformed frame"),
                _ => panic!("expected an error"),
            }
        }
        FrameAction::Handle(_) => panic!("expected a reply"),
    }
    assert!(c.is_open());
    assert_eq!(c.in_flight(), 0);
    assert!(matches!(c.on_frame(&frame("8", RequestBody::ListLocations)), FrameAction::Handle(_)));
}

#[test]
fn empty_request_echoes_nonce() {
    let r = reject_frame(&[1, 0, 0, 0, b'5']);
    assert_eq!(r.nonce.as_deref(), Some("5"));
    match r.body {
        ResponseBody::Error { message } => assert_eq!(message, "request was empty"),
        _ => panic!("expected an error"),
    }
    let r = reject_frame(&[1, 0, 0, 0, b'5', 42]);
    assert_eq!(r.nonce.as_deref(), Some("5"));
}

#[test]
fn concurrent_index_requests_each_answered_once() {
    let mut c = Connection::new(16);
    let mut handlers = Vec::new();
    for n in 0..5 {
        let body = RequestBody::GetIndex { ids: vec!["default".to_string()] };
        match c.on_frame(&frame(&format!("n{}", n), body)) {
            FrameAction::Handle(req) => handlers.push(req),
            FrameAction::Reply(_) => panic!("expected a handler"),
        }
    }
    assert_eq!(c.in_flight(), 5);
    let mut seen = Vec::new();
    for req in handlers.into_iter().rev() {
        let r = answer(req.nonce, Ok(index_list(vec![vec![entry("a")]])));
        let nonce = r.nonce.clone().unwrap();
        let bytes = c.on_done(&r);
        assert!(!bytes.is_empty());
        seen.push(nonce);
    }
    assert_eq!(c.in_flight(), 0);
    seen.sort();
    assert_eq!(seen, vec!["n0", "n1", "n2", "n3", "n4"]);
}

#[test]
fn requests_over_the_bound_are_refused() {
    let mut c = Connection::new(1);
    assert!(matches!(c.on_frame(&frame("a", RequestBody::ListLocations)), FrameAction::Handle(_)));
    match c.on_frame(&frame("b", RequestBody::ListLocations)) {
        FrameAction::Reply(r) => {
            assert_eq!(r.nonce.as_deref(), Some("b"));
            assert!(matches!(r.body, ResponseBody::Error { .. }));
        }
        FrameAction::Handle(_) => panic!("expected a refusal"),
    }
    assert_eq!(c.in_flight(), 1);
}

#[test]
fn rejected_library_yields_error() {
    let r = answer("9".to_string(), Err("location already exists".to_string()));
    assert_eq!(r.nonce.as_deref(), Some("9"));
    assert!(matches!(r.body, ResponseBody::Error { .. }));
}

#[test]
fn created_library_yields_location_list() {
    let loc = Location { id: "1".to_string(), name: "Trips".to_string(), path: "/t".to_string() };
    let tag = Tag { id: "t".to_string(), name: "fav".to_string() };
    let r = answer("9".to_string(), Ok(location_list(vec![loc], vec![tag])));
    match r.body {
        ResponseBody::LocationList { locations, tags } => {
            assert_eq!(locations[0].path, "/t");
            assert_eq!(tags[0].name, "fav");
        }
        _ => panic!("expected a location list"),
    }
}

#[test]
fn index_parts_are_joined_in_id_order() {
    let body = index_list(vec![vec![entry("a"), entry("b")], vec![], vec![entry("c")]]);
    match body {
        ResponseBody::IndexList { entries } => {
            let paths: Vec<&str> = entries.iter().map(|e| e.path.as_str()).collect();
            assert_eq!(paths, vec!["a", "b", "c"]);
        }
        _ => panic!("expected an index list"),
    }
}

#[test]
fn metadata_skips_missing_files_in_order() {
    let m = |f: &str| Some(MetadataEntry { file: f.to_string(), rating: 2 });
    let body = metadata_list(vec![m("x"), None, m("y"), None]);
    match body {
        ResponseBody::MetadataList { entries } => {
            let files: Vec<&str> = entries.iter().map(|e| e.file.as_str()).collect();
            assert_eq!(files, vec!["x", "y"]);
        }
        _ => panic!("expected a metadata list"),
    }
}

#[test]
fn rating_refreshes_default_location() {
    assert_eq!(rating_refresh_ids(), vec!["default".to_string()]);
}

#[test]
fn rendered_image_becomes_image_response() {
    let img = Rendered { pixels: vec![0; 12], width: 2, height: 2 };
    match image_outcome(Ok(img)) {
        Ok(ResponseBody::Image { pixels, width, height }) => {
            assert_eq!((pixels.len(), width, height), (12, 2, 2));
        }
        _ => panic!("expected an image"),
    }
}

#[test]
fn closed_connection_reports_closed() {
    let mut c = Connection::new(2);
    c.close();
    assert!(!c.is_open());
}
