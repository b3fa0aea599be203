use telegram_relay::Dispatch;
use telegram_relay::MessageData;
use telegram_relay::SendMessageResponse;
use telegram_relay::SendOutcome;

const TOKEN: &str = "123456:test-token";

/// Runs a whole delivery, answering the k-th call with the k-th outcome,
/// and checks on the way that each call is the one the request asks for.
fn run(request: MessageData<'_>, outcomes: &[SendOutcome]) -> SendMessageResponse {
    let expected = request.clone();
    let mut dispatch = Dispatch::new(request);
    let mut made = 0;
    while let Some(call) = dispatch.next_call(TOKEN) {
        assert!(!dispatch.is_done());
        assert_eq!(call.url, format!("https://api.telegram.org/bot{}/sendMessage", TOKEN));
        assert_eq!(call.body.chat_id, expected.user_list[made]);
        assert_eq!(call.body.text, expected.message);
        assert_eq!(call.body.parse_mode, expected.parse_mode);
        dispatch = dispatch.record(outcomes[made]);
        made += 1;
    }
    assert!(dispatch.is_done());
    assert_eq!(made, expected.user_list.len());
    dispatch.into_response()
}

#[test]
fn empty_recipient_list_gives_two_empty_lists() {
    let response = run(MessageData::new("hi", None, vec![]), &[]);
    assert_eq!(response, SendMessageResponse { successful: vec![], errors: vec![] });
}

#[test]
fn one_accepted_and_one_forbidden() {
    let outcomes = [SendOutcome::Status(200), SendOutcome::Status(403)];
    let response = run(MessageData::new("hi", None, vec![111, 222]), &outcomes);
    assert_eq!(response.successful, vec![111]);
    assert_eq!(response.errors, vec![222]);
}

#[test]
fn all_accepted_keeps_request_order() {
    let outcomes = [SendOutcome::Status(200); 3];
    let response = run(MessageData::new("hi", Some("HTML"), vec![30, 10, 20]), &outcomes);
    assert_eq!(response.successful, vec![30, 10, 20]);
    assert_eq!(response.errors, Vec::<i64>::new());
}

#[test]
fn all_failed_keeps_request_order() {
    let outcomes = [SendOutcome::Status(500), SendOutcome::NoResponse, SendOutcome::Status(404)];
    let response = run(MessageData::new("hi", None, vec![3, 1, 2]), &outcomes);
    assert_eq!(response.successful, Vec::<i64>::new());
    assert_eq!(response.errors, vec![3, 1, 2]);
}

#[test]
fn transport_failure_counts_as_error() {
    let response = run(MessageData::new("hi", None, vec![7]), &[SendOutcome::NoResponse]);
    assert_eq!(response.successful, Vec::<i64>::new());
    assert_eq!(response.errors, vec![7]);
}

#[test]
fn other_success_statuses_count_as_errors() {
    let outcomes = [SendOutcome::Status(201), SendOutcome::Status(204), SendOutcome::Status(200)];
    let response = run(MessageData::new("hi", None, vec![1, 2, 3]), &outcomes);
    assert_eq!(response.successful, vec![3]);
    assert_eq!(response.errors, vec![1, 2]);
}

#[test]
fn every_recipient_yields_one_entry() {
    let recipients: Vec<i64> = vec![5, -6, 7, 8, i64::MAX, i64::MIN, 0];
    let outcomes = [
        SendOutcome::Status(200),
        SendOutcome::Status(429),
        SendOutcome::Status(200),
        SendOutcome::NoResponse,
        SendOutcome::Status(200),
        SendOutcome::Status(400),
        SendOutcome::Status(200),
    ];
    let response = run(MessageData::new("hi", None, recipients.clone()), &outcomes);
    assert_eq!(response.successful.len() + response.errors.len(), recipients.len());
    assert_eq!(response.successful, vec![5, 7, i64::MAX, 0]);
    assert_eq!(response.errors, vec![-6, 8, i64::MIN]);
}

#[test]
fn duplicates_are_tried_and_listed_each_time() {
    let outcomes = [SendOutcome::Status(200), SendOutcome::Status(403), SendOutcome::Status(200)];
    let response = run(MessageData::new("hi", None, vec![5, 5, 5]), &outcomes);
    assert_eq!(response.successful, vec![5, 5]);
    assert_eq!(response.errors, vec![5]);
}

#[test]
fn outcome_without_a_due_call_is_dropped() {
    let mut dispatch = Dispatch::new(MessageData::new("hi", None, vec![9]));
    dispatch = dispatch.record(SendOutcome::Status(200));
    assert!(dispatch.is_done());
    assert!(dispatch.next_call(TOKEN).is_none());
    dispatch = dispatch.record(SendOutcome::Status(500));
    dispatch = dispatch.record(SendOutcome::Status(200));
    assert!(dispatch.is_done());
    let response = dispatch.into_response();
    assert_eq!(response.successful, vec![9]);
    assert_eq!(response.errors, Vec::<i64>::new());
}

#[test]
fn response_part_way_lists_only_what_was_tried() {
    let mut dispatch = Dispatch::new(MessageData::new("hi", None, vec![1, 2, 3]));
    dispatch = dispatch.record(SendOutcome::Status(200));
    dispatch = dispatch.record(SendOutcome::Status(403));
    assert!(!dispatch.is_done());
    let due = dispatch.next_call(TOKEN).unwrap();
    assert_eq!(due.body.chat_id, 3);
    let response = dispatch.into_response();
    assert_eq!(response.successful, vec![1]);
    assert_eq!(response.errors, vec![2]);
}

#[test]
fn next_call_does_not_advance() {
    let dispatch = Dispatch::new(MessageData::new("hello", Some("Markdown"), vec![42, 43]));
    let first = dispatch.next_call(TOKEN).unwrap();
    let again = dispatch.next_call(TOKEN).unwrap();
    assert_eq!(first, again);
    assert_eq!(first.body.chat_id, 42);
    assert_eq!(first.body.text, "hello");
    assert_eq!(first.body.parse_mode, "Markdown");
}
