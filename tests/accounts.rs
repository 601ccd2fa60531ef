use ib_accounts::accounts::{
    cancel_positions, decode_family_codes, family_codes, family_codes_request, positions, Absorbed,
    FamilyCode, PositionStream, Pulled, Step, StreamState,
};
use ib_accounts::protocol::{
    check_server_version, parse_i32, DecodeFault, Error, Incoming, ResponseMessage, ACCOUNT_SUMMARY,
    REQ_FAMILY_CODES,
};

#[derive(Debug, Clone, PartialEq)]
struct Holding {
    account: String,
    position: f64,
}

fn holding(account: &str, position: f64) -> Holding {
    Holding { account: account.to_string(), position }
}

fn response(fields: &[&str]) -> ResponseMessage {
    ResponseMessage { fields: fields.iter().map(|f| f.to_string()).collect() }
}

fn fresh_stream() -> PositionStream {
    let (_, stream) = positions(ACCOUNT_SUMMARY).expect("version is high enough");
    stream
}

fn undecodable() -> Error {
    Error::Decode { field: 3, reason: DecodeFault::EndOfMessage }
}

fn fields_of(fields: &[String]) -> Vec<&str> {
    fields.iter().map(|f| f.as_str()).collect()
}

#[test]
fn positions_below_version_fails() {
    let r = positions(ACCOUNT_SUMMARY - 1);
    match r {
        Err(Error::ServerVersion { required, actual, feature }) => {
            assert_eq!(required, 67);
            assert_eq!(actual, 66);
            assert_eq!(feature, "It does not support position requests.");
        }
        _ => panic!("expected a version error"),
    }
}

#[test]
fn positions_at_version_builds_request() {
    let (req, stream) = positions(67).expect("accepted");
    assert_eq!(fields_of(&req.fields), vec!["61", "1"]);
    assert_eq!(stream.state, StreamState::Active);
    assert!(!stream.cancel_sent);
    assert!(stream.absorbed.is_empty());
}

#[test]
fn family_codes_below_version_fails() {
    let r = family_codes_request(REQ_FAMILY_CODES - 1);
    match r {
        Err(Error::ServerVersion { required, actual, .. }) => {
            assert_eq!(required, 112);
            assert_eq!(actual, 111);
        }
        _ => panic!("expected a version error"),
    }
    let req = family_codes_request(112).expect("accepted");
    assert_eq!(fields_of(&req.fields), vec!["80"]);
}

#[test]
fn cancel_positions_request() {
    assert!(matches!(cancel_positions(10), Err(Error::ServerVersion { .. })));
    let req = cancel_positions(200).expect("accepted");
    assert_eq!(fields_of(&req.fields), vec!["64", "1"]);
}

#[test]
fn check_server_version_names_feature() {
    assert!(check_server_version(5, 5, "x").is_ok());
    match check_server_version(4, 5, "no feature") {
        Err(Error::ServerVersion { feature, .. }) => assert_eq!(feature, "no feature"),
        _ => panic!("expected a version error"),
    }
}

#[test]
fn two_positions_then_end() {
    let mut stream = fresh_stream();
    let a = holding("U1", 10.0);
    let b = holding("U2", -3.5);
    let (items, cancel) = stream.drain(vec![
        Pulled::Position(Ok(a.clone())),
        Pulled::Position(Ok(b.clone())),
        Pulled::PositionEnd,
    ]);
    assert_eq!(items, vec![a, b]);
    let cancel = cancel.expect("one cancellation");
    assert_eq!(fields_of(&cancel.fields), vec!["64", "1"]);
    assert_eq!(stream.state, StreamState::Terminated);
    assert!(stream.cancel_sent);
}

#[test]
fn undecodable_position_is_dropped() {
    let mut stream = fresh_stream();
    let a = holding("U1", 1.0);
    let b = holding("U1", 0.0);
    let (items, cancel) = stream.drain(vec![
        Pulled::Position(Ok(a.clone())),
        Pulled::Position(Err(undecodable())),
        Pulled::Position(Ok(b.clone())),
        Pulled::PositionEnd,
    ]);
    assert_eq!(items, vec![a, b]);
    assert!(cancel.is_some());
    assert_eq!(stream.absorbed.len(), 1);
    assert!(matches!(stream.absorbed[0], Absorbed::Undecodable(Error::Decode { field: 3, .. })));
}

#[test]
fn foreign_message_is_ignored() {
    let account_value = response(&["6", "2", "NetLiquidation", "100", "USD", "U1"]);
    let kind = account_value.message_type();
    assert_eq!(kind, Incoming::Other(6));
    let mut stream = fresh_stream();
    let a = holding("U1", 2.0);
    let (items, cancel) = stream.drain(vec![Pulled::Position(Ok(a.clone())), Pulled::Other(kind), Pulled::PositionEnd]);
    assert_eq!(items, vec![a]);
    assert!(cancel.is_some());
    assert!(matches!(stream.absorbed[0], Absorbed::Unexpected(Incoming::Other(6))));
}

#[test]
fn exhaustion_without_end_sends_no_cancel() {
    let mut stream = fresh_stream();
    let a = holding("U1", 1.0);
    let b = holding("U2", 2.0);
    let (items, cancel) = stream.drain(vec![Pulled::Position(Ok(a.clone())), Pulled::Position(Ok(b.clone()))]);
    assert_eq!(items, vec![a, b]);
    assert!(cancel.is_none());
    assert!(!stream.cancel_sent);
    assert_eq!(stream.state, StreamState::Terminated);
}

#[test]
fn explicit_exhaustion_stops_before_later_messages() {
    let mut stream = fresh_stream();
    let a = holding("U1", 1.0);
    let (items, cancel) = stream.drain(vec![
        Pulled::Position(Ok(a.clone())),
        Pulled::Exhausted,
        Pulled::Position(Ok(holding("U9", 9.0))),
        Pulled::PositionEnd,
    ]);
    assert_eq!(items, vec![a]);
    assert!(cancel.is_none());
}

#[test]
fn family_codes_without_answer_is_empty() {
    let codes = family_codes(None).expect("no answer is no error");
    assert!(codes.is_empty());
}

#[test]
fn family_codes_one_code() {
    let m = response(&["78", "1", "U1", "F1"]);
    let codes = family_codes(Some(&m)).expect("decodes");
    assert_eq!(codes.len(), 1);
    assert_eq!(codes[0].account_id, "U1");
    assert_eq!(codes[0].family_code, "F1");
}

#[test]
fn cancel_failure_is_absorbed() {
    let mut stream = fresh_stream();
    let a = holding("U1", 1.0);
    let (items, cancel) = stream.drain(vec![Pulled::Position(Ok(a.clone())), Pulled::PositionEnd]);
    assert!(cancel.is_some());
    stream.cancel_submitted(Err(Error::Decode { field: 0, reason: DecodeFault::EndOfMessage }));
    assert_eq!(items, vec![a]);
    assert_eq!(stream.state, StreamState::Terminated);
    assert!(matches!(stream.absorbed.last(), Some(Absorbed::CancelFailed(_))));
    stream.cancel_submitted(Ok(()));
    assert_eq!(stream.absorbed.len(), 1);
}

#[test]
fn next_step_by_kind() {
    let mut stream = fresh_stream();
    assert!(matches!(stream.next_step(Pulled::Position(Ok(5u8))), Step::Item(5)));
    assert!(matches!(stream.next_step::<u8>(Pulled::Other(Incoming::NotValid)), Step::Continue));
    assert!(matches!(stream.next_step::<u8>(Pulled::Position(Err(undecodable()))), Step::Continue));
    match stream.next_step::<u8>(Pulled::PositionEnd) {
        Step::Cancel(req) => assert_eq!(fields_of(&req.fields), vec!["64", "1"]),
        _ => panic!("expected a cancellation"),
    }
    assert!(matches!(stream.next_step(Pulled::Position(Ok(1u8))), Step::End));
    assert!(matches!(stream.next_step::<u8>(Pulled::PositionEnd), Step::End));
    assert_eq!(stream.absorbed.len(), 2);
}

#[test]
fn drain_on_empty_handle() {
    let mut stream = fresh_stream();
    let (items, cancel) = stream.drain::<u8>(Vec::new());
    assert!(items.is_empty());
    assert!(cancel.is_none());
    assert_eq!(stream.state, StreamState::Terminated);
}

#[test]
fn message_types() {
    assert_eq!(response(&["61", "3"]).message_type(), Incoming::Position);
    assert_eq!(response(&["62", "1"]).message_type(), Incoming::PositionEnd);
    assert_eq!(response(&["78"]).message_type(), Incoming::FamilyCodes);
    assert_eq!(response(&["-4"]).message_type(), Incoming::Other(-4));
    assert_eq!(response(&[]).message_type(), Incoming::NotValid);
    assert_eq!(response(&["x1"]).message_type(), Incoming::NotValid);
}

#[test]
fn parse_integers() {
    assert_eq!(parse_i32("0"), Some(0));
    assert_eq!(parse_i32("42"), Some(42));
    assert_eq!(parse_i32("+7"), Some(7));
    assert_eq!(parse_i32("-15"), Some(-15));
    assert_eq!(parse_i32("2147483647"), Some(i32::MAX));
    assert_eq!(parse_i32("-2147483648"), Some(i32::MIN));
    assert_eq!(parse_i32("2147483648"), None);
    assert_eq!(parse_i32("99999999999999"), None);
    assert_eq!(parse_i32(""), None);
    assert_eq!(parse_i32("-"), None);
    assert_eq!(parse_i32("1a"), None);
    assert_eq!(parse_i32(" 1"), None);
    assert_eq!("2147483648".parse::<i32>().ok(), parse_i32("2147483648"));
}

#[test]
fn decode_family_codes_cases() {
    let two = decode_family_codes(&response(&["78", "2", "U1", "F1", "U2", ""])).expect("decodes");
    assert_eq!(two.len(), 2);
    assert_eq!(two[1].account_id, "U2");
    assert_eq!(two[1].family_code, "");
    let none = decode_family_codes(&response(&["78", "0"])).expect("decodes");
    assert!(none.is_empty());
    let negative = decode_family_codes(&response(&["78", "-3"])).expect("decodes");
    assert!(negative.is_empty());
    assert!(matches!(
        decode_family_codes(&response(&["78"])),
        Err(Error::Decode { field: 1, reason: DecodeFault::EndOfMessage })
    ));
    assert!(matches!(
        decode_family_codes(&response(&["78", "one"])),
        Err(Error::Decode { field: 1, reason: DecodeFault::NotAnInteger })
    ));
    assert!(matches!(
        decode_family_codes(&response(&["78", "2", "U1", "F1", "U2"])),
        Err(Error::Decode { field: 5, reason: DecodeFault::EndOfMessage })
    ));
}

#[test]
fn family_code_default_is_empty() {
    let c = FamilyCode::default();
    assert!(c.account_id.is_empty());
    assert!(c.family_code.is_empty());
}
