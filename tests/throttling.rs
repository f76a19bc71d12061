use slack_emoji::retry::{
    parse_wait_seconds, Action, FieldValue, Operation, Response, SubmitError, Submission,
    COOLDOWN_SECONDS,
};
use slack_emoji::slack::{SlackClient, ADD_ENDPOINT};

fn upload() -> Operation {
    Operation::Upload { name: "team_mascot".to_string(), filename: "team_mascot.png".to_string() }
}

fn throttled(s: &str) -> Response {
    Response::Throttled { retry_after: s.to_string() }
}

#[test]
fn three_throttles_then_success() {
    let mut call = Submission::new(upload());
    let mut waits = Vec::new();
    let responses = vec![
        throttled("2"),
        throttled("5"),
        throttled("1"),
        Response::Answered { ok: true, error: None },
    ];
    let mut sent = 0;
    let mut outcome = None;
    for resp in responses {
        sent += 1;
        match call.on_response(resp) {
            Action::Retry { wait_seconds } => waits.push(wait_seconds),
            Action::Finish { result, cooldown_seconds } => {
                outcome = Some((result, cooldown_seconds));
                break;
            }
        }
    }
    assert_eq!(sent, 4);
    assert_eq!(waits, vec![2, 5, 1]);
    let (result, cooldown) = outcome.unwrap();
    assert!(result.is_ok());
    assert_eq!(cooldown, COOLDOWN_SECONDS);
    assert!(call.is_finished());
}

#[test]
fn four_throttles_exhaust_the_retries() {
    let mut call = Submission::new(upload());
    let mut sent = 0;
    let mut waits = 0;
    let mut outcome = None;
    for _ in 0..10 {
        if call.is_finished() {
            break;
        }
        sent += 1;
        match call.on_response(throttled("3")) {
            Action::Retry { .. } => waits += 1,
            Action::Finish { result, cooldown_seconds } => outcome = Some((result, cooldown_seconds)),
        }
    }
    assert_eq!(sent, 4);
    assert_eq!(waits, 3);
    assert_eq!(call.retries(), 3);
    match outcome.unwrap() {
        (Err(SubmitError::RetryExhausted { operation }), 0) => {
            assert_eq!(operation, "upload of emoji team_mascot from team_mascot.png")
        }
        other => panic!("unexpected {:?}", other),
    }
}

#[test]
fn rejection_carries_key_and_message() {
    let mut call = Submission::new(Operation::Alias {
        name: "yay".to_string(),
        alias_for: "tada".to_string(),
    });
    match call.on_response(Response::Answered { ok: false, error: Some("error_name_taken".to_string()) }) {
        Action::Finish { result: Err(SubmitError::OperationRejected { key, message }), cooldown_seconds } => {
            assert_eq!(key, "'yay' for 'tada'");
            assert_eq!(message, "error_name_taken");
            assert_eq!(cooldown_seconds, 1);
        }
        other => panic!("unexpected {:?}", other),
    }
    let mut call = Submission::new(upload());
    match call.on_response(Response::Answered { ok: true, error: Some("invalid_image".to_string()) }) {
        Action::Finish { result: Err(SubmitError::OperationRejected { key, message }), .. } => {
            assert_eq!(key, "team_mascot");
            assert_eq!(message, "invalid_image");
        }
        other => panic!("unexpected {:?}", other),
    }
    // Success is decided by the absence of an error alone.
    let mut call = Submission::new(upload());
    match call.on_response(Response::Answered { ok: false, error: None }) {
        Action::Finish { result: Ok(()), cooldown_seconds } => assert_eq!(cooldown_seconds, 1),
        other => panic!("unexpected {:?}", other),
    }
}

#[test]
fn bad_signal_and_transport_failure_end_the_call_at_once() {
    let mut call = Submission::new(upload());
    match call.on_response(throttled("soon")) {
        Action::Finish { result: Err(SubmitError::InvalidThrottleSignal { value }), cooldown_seconds: 0 } => {
            assert_eq!(value, "soon")
        }
        other => panic!("unexpected {:?}", other),
    }
    let mut call = Submission::new(upload());
    match call.on_response(Response::TransportFailed { message: "reset".to_string() }) {
        Action::Finish { result: Err(SubmitError::Transport { message }), cooldown_seconds: 0 } => {
            assert_eq!(message, "reset")
        }
        other => panic!("unexpected {:?}", other),
    }
}

#[test]
fn retry_after_values() {
    assert_eq!(parse_wait_seconds("30"), Some(30));
    assert_eq!(parse_wait_seconds("0"), Some(0));
    assert_eq!(parse_wait_seconds("007"), Some(7));
    assert_eq!(parse_wait_seconds("18446744073709551615"), Some(u64::MAX));
    assert_eq!(parse_wait_seconds("18446744073709551616"), None);
    assert_eq!(parse_wait_seconds(""), None);
    assert_eq!(parse_wait_seconds("1.5"), None);
    assert_eq!(parse_wait_seconds("-1"), None);
    assert_eq!(parse_wait_seconds("99999999999999999999x"), None);
}

#[test]
fn forms_are_built_per_operation() {
    let fields = upload().form_fields("SECRET-REDACTED");
    let shape: Vec<(String, String, bool)> = fields
        .into_iter()
        .map(|f| match f.value {
            FieldValue::Text(t) => (f.name, t, false),
            FieldValue::File(n) => (f.name, n, true),
        })
        .collect();
    assert_eq!(
        shape,
        vec![
            ("mode".to_string(), "data".to_string(), false),
            ("name".to_string(), "team_mascot".to_string(), false),
            ("image".to_string(), "team_mascot.png".to_string(), true),
            ("token".to_string(), "SECRET-REDACTED".to_string(), false),
        ]
    );
    let alias = Operation::Alias { name: "yay".to_string(), alias_for: "tada".to_string() };
    let names: Vec<String> = alias.form_fields("t").into_iter().map(|f| f.name).collect();
    assert_eq!(names, vec!["mode", "name", "alias_for", "token"]);
}

#[test]
fn client_urls() {
    let client = SlackClient::new("tok".to_string(), "acme");
    assert_eq!(client.base_url, "https://acme.slack.com/api");
    assert_eq!(client.token, "tok");
    assert_eq!(client.generate_url(ADD_ENDPOINT), "https://acme.slack.com/api/emoji.add");
}
