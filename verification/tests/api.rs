use eyes_on_me::api::{
    found, loaded, payload_of, required, search_request, ApiError, Posted, DEFAULT_SEARCH_LIMIT,
    MAX_SEARCH_LIMIT,
};

#[test]
fn refusals_have_their_codes() {
    assert_eq!(ApiError::BadRequest.status_code(), 400);
    assert_eq!(ApiError::NotFound.status_code(), 404);
    assert_eq!(ApiError::Internal.status_code(), 500);
}

#[test]
fn answers_follow_what_was_loaded() {
    assert_eq!(loaded::<u8, &str>(Ok(1)), Ok(1));
    assert_eq!(loaded::<u8, &str>(Err("down")), Err(ApiError::Internal));
    assert_eq!(found::<u8, &str>(Ok(Some(1))), Ok(1));
    assert_eq!(found::<u8, &str>(Ok(None)), Err(ApiError::NotFound));
    assert_eq!(found::<u8, &str>(Err("down")), Err(ApiError::Internal));
    assert_eq!(required(Some("day")), Ok("day"));
    assert_eq!(required::<u8>(None), Err(ApiError::BadRequest));
}

#[test]
fn payloads_come_raw_or_in_an_envelope() {
    assert_eq!(payload_of(Posted::Raw(3)), 3);
    let posted = Posted::Envelope { message_type: "activity".to_string(), payload: 4 };
    assert_eq!(payload_of(posted), 4);
}

#[test]
fn searches_need_a_query_and_are_bounded() {
    assert_eq!(DEFAULT_SEARCH_LIMIT, 25);
    assert_eq!(MAX_SEARCH_LIMIT, 100);
    let r = search_request(Some("  rust rfc "), Some(" mac-1\n"), None).unwrap();
    assert_eq!(r.query, "rust rfc");
    assert_eq!(r.device_id.as_deref(), Some("mac-1"));
    assert_eq!(r.limit, 25);
    let r = search_request(Some("x"), Some("  "), Some(0)).unwrap();
    assert_eq!(r.device_id, None);
    assert_eq!(r.limit, 1);
    assert_eq!(search_request(Some("x"), None, Some(100)).unwrap().limit, 100);
    assert_eq!(search_request(Some("x"), None, Some(u16::MAX)).unwrap().limit, 100);
    assert_eq!(search_request(Some(" \t"), None, None).unwrap_err(), ApiError::BadRequest);
    assert_eq!(search_request(None, Some("d"), Some(5)).unwrap_err(), ApiError::BadRequest);
}
