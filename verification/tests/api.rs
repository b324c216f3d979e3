use bili::{ApiResponse, Error};

#[test]
fn accessors_hand_back_the_fields() {
    let r: ApiResponse<u32> = ApiResponse::new(0, Some("m".to_string()), None, Some(7));
    assert!(r.ok());
    assert_eq!(r.code(), 0);
    assert_eq!(r.msg().as_deref(), Some("m"));
    assert_eq!(r.message(), &None);
    assert_eq!(r.data(), &Some(7));
    assert_eq!(r.into_data(), 7);
}

#[test]
fn nonzero_code_is_not_ok() {
    let r: ApiResponse<u32> = ApiResponse::new(-400, None, None, None);
    assert!(!r.ok());
    assert_eq!(r.code(), -400);
}

#[test]
fn success_envelope_yields_the_data() {
    let r: ApiResponse<String> = ApiResponse::new(0, None, None, Some("d".to_string()));
    assert_eq!(r.into_result().unwrap(), "d");
}

#[test]
fn rejection_carries_the_code_and_msg() {
    let r: ApiResponse<u32> = ApiResponse::new(65530, Some("not found".to_string()), None, None);
    assert_eq!(
        r.into_result().unwrap_err(),
        Error::UpstreamRejected { code: 65530, msg: Some("not found".to_string()) }
    );
}

#[test]
fn rejection_falls_back_to_the_message_field() {
    let r: ApiResponse<u32> = ApiResponse::new(1, None, Some("room hidden".to_string()), None);
    assert_eq!(
        r.into_result().unwrap_err(),
        Error::UpstreamRejected { code: 1, msg: Some("room hidden".to_string()) }
    );
}

#[test]
fn rejection_prefers_msg_over_message() {
    let r: ApiResponse<u32> =
        ApiResponse::new(1, Some("msg".to_string()), Some("message".to_string()), None);
    assert_eq!(
        r.into_result().unwrap_err(),
        Error::UpstreamRejected { code: 1, msg: Some("msg".to_string()) }
    );
}

#[test]
fn success_without_data_is_a_protocol_failure() {
    let r: ApiResponse<u32> = ApiResponse::new(0, None, None, None);
    assert_eq!(r.into_result().unwrap_err(), Error::ProtocolFailure);
}
