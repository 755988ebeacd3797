use break_enforcer::api::{parse_idle_response, parse_status_response, take_response_payload, Error};
use break_enforcer::protocol::{
    api_ports, classify_request, frame_message, idle_since_request_frame, status_msg_request_frame,
    subscribe_request_frame, ApiRequest,
};
use break_enforcer::status::format_status;

#[test]
fn requests_are_framed_with_one_zero_byte() {
    assert_eq!(status_msg_request_frame(), b"status_msg\0".to_vec());
    assert_eq!(idle_since_request_frame(), b"idle_since\0".to_vec());
    assert_eq!(subscribe_request_frame(), b"subscribe_to_state_changes\0".to_vec());
    assert_eq!(frame_message(b"break in 5m"), b"break in 5m\0".to_vec());
}

#[test]
fn requests_classify() {
    assert_eq!(classify_request(&b"status_msg".to_vec()), ApiRequest::StatusMsg);
    assert_eq!(classify_request(&b"idle_since".to_vec()), ApiRequest::IdleSince);
    assert_eq!(classify_request(&b"subscribe_to_state_changes".to_vec()), ApiRequest::Subscribe);
    assert_eq!(classify_request(&b"reboot".to_vec()), ApiRequest::Unknown);
    assert_eq!(classify_request(&b"status_msg ".to_vec()), ApiRequest::Unknown);
}

#[test]
fn known_ports_in_order() {
    assert_eq!(api_ports(), vec![49151, 28769, 19788, 62738, 34342, 12846, 8797]);
}

#[test]
fn empty_read_means_connection_closed() {
    let buf = vec![0u8; 16];
    assert!(matches!(take_response_payload(&buf, 0), Err(Error::ConnectionClosed)));
    let payload = take_response_payload(&buf, 3).unwrap();
    assert_eq!(payload, vec![0u8, 0u8]);
}

#[test]
fn idle_response_parses_number() {
    assert_eq!(parse_idle_response(b"42".to_vec()).unwrap(), 42);
    assert_eq!(parse_idle_response(b"0".to_vec()).unwrap(), 0);
}

#[test]
fn idle_response_rejects_text() {
    match parse_idle_response(b"soon".to_vec()) {
        Err(Error::IncorrectResponse { packet }) => assert_eq!(packet, "soon"),
        other => panic!("text must be reported as a wrong response, got {other:?}"),
    }
}

#[test]
fn idle_response_rejects_invalid_utf8() {
    assert!(matches!(
        parse_idle_response(vec![0xff, 0xfe]),
        Err(Error::CorruptResponse)
    ));
}

#[test]
fn status_response_is_the_text() {
    assert_eq!(parse_status_response(b"break in 5m".to_vec()).unwrap(), "break in 5m");
    assert!(matches!(parse_status_response(vec![0x80]), Err(Error::CorruptResponse)));
}

#[test]
fn status_output_shapes() {
    assert_eq!(format_status(Ok("break in 5m".to_string()), false), "break in 5m");
    assert_eq!(format_status(Ok("break in 5m".to_string()), true), "{\"msg\": \"break in 5m\"}");
    let err = format_status(Err(Error::CouldNotConnect), false);
    assert_eq!(err, "Could not connect on any of the ports the api server listens on");
    let err_json = format_status(Err(Error::ConnectionClosed), true);
    assert_eq!(err_json, "{\"msg\": \"The api server closed the connection, did it halt?\"}");
}

#[test]
fn error_messages() {
    assert_eq!(Error::WritingRequest.msg_string(), "Error writing request");
    assert_eq!(Error::ReadingResponse.msg_string(), "Error while reading response");
    assert_eq!(Error::CorruptResponse.msg_string(), "The response is not valid utf8");
    assert_eq!(
        Error::IncorrectResponse { packet: "soon".to_string() }.msg_string(),
        "The response should be a number, could not be parsed as one, response: soon"
    );
}
