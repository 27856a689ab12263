use tokyo_library::request::{decode_request, encode_request, DecodeError, Request, RequestBody};
use tokyo_library::response::{encode_response, Response, ResponseBody};

fn frame(nonce: &str, body: RequestBody) -> Vec<u8> {
    encode_request(&Request { nonce: nonce.to_string(), body })
}

#[test]
fn list_locations_frame_bytes() {
    let b = frame("7", RequestBody::ListLocations);
    assert_eq!(b, vec![1, 0, 0, 0, b'7', 0]);
}

#[test]
fn set_rating_frame_bytes() {
    let b = frame("", RequestBody::SetRating { file: "a".to_string(), rating: -1 });
    assert_eq!(b, vec![0, 0, 0, 0, 5, 1, 0, 0, 0, b'a', 0xff, 0xff, 0xff, 0xff]);
}

#[test]
fn every_request_kind_round_trips() {
    let bodies = vec![
        RequestBody::ListLocations,
        RequestBody::GetIndex { ids: vec!["default".to_string(), "b".to_string()] },
        RequestBody::CreateLibrary { name: "Trips".to_string(), path: "/photos/trips".to_string() },
        RequestBody::GetMetadata { files: vec![] },
        RequestBody::GetImage { file: "x.raw".to_string(), edits: None },
        RequestBody::GetImage { file: "x.raw".to_string(), edits: Some("{\"exposure\":0.1}".to_string()) },
        RequestBody::SetRating { file: "ä.raw".to_string(), rating: 4 },
    ];
    for body in bodies {
        let b = frame("nonce-ü", body.clone());
        let back = decode_request(&b).unwrap();
        assert_eq!(back.nonce, "nonce-ü");
        assert_eq!(format!("{:?}", back.body), format!("{:?}", body));
    }
}

#[test]
fn truncated_frame_is_refused() {
    let b = frame("7", RequestBody::GetIndex { ids: vec!["default".to_string()] });
    for n in 0..b.len() {
        assert!(matches!(decode_request(&b[..n]), Err(DecodeError::Malformed)));
    }
}

#[test]
fn trailing_bytes_are_refused() {
    let mut b = frame("7", RequestBody::ListLocations);
    b.push(0);
    assert!(decode_request(&b).is_err());
}

#[test]
fn unknown_tag_is_refused() {
    assert!(decode_request(&[0, 0, 0, 0, 9]).is_err());
    assert!(decode_request(&[0, 0, 0, 0]).is_err());
}

#[test]
fn invalid_utf8_is_refused() {
    assert!(decode_request(&[2, 0, 0, 0, 0xff, 0xfe, 0]).is_err());
    let ok = decode_request(&[2, 0, 0, 0, 0xc3, 0xa4, 0]).unwrap();
    assert_eq!(ok.nonce, "ä");
}

#[test]
fn image_flag_must_be_zero_or_one() {
    let mut b = frame("1", RequestBody::GetImage { file: "f".to_string(), edits: None });
    let last = b.len() - 1;
    b[last] = 2;
    assert!(decode_request(&b).is_err());
}

#[test]
fn error_response_bytes() {
    let r = Response { nonce: Some("3".to_string()), body: ResponseBody::Error { message: "no".to_string() } };
    assert_eq!(encode_response(&r), vec![1, 1, 0, 0, 0, b'3', 5, 2, 0, 0, 0, b'n', b'o']);
}

#[test]
fn image_response_bytes() {
    let r = Response { nonce: None, body: ResponseBody::Image { pixels: vec![1, 2, 3], width: 1, height: 1 } };
    assert_eq!(
        encode_response(&r),
        vec![0, 3, 1, 0, 0, 0, 1, 0, 0, 0, 3, 0, 0, 0, 1, 2, 3]
    );
}
