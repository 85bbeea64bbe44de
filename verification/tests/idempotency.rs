use zero2prod::idempotency::persistence::HeaderPairRecord;
use zero2prod::idempotency::persistence::IdempotencyError;
use zero2prod::idempotency::persistence::IdempotencyStore;
use zero2prod::idempotency::persistence::InsertOutcome;
use zero2prod::idempotency::persistence::NextAction;
use zero2prod::idempotency::persistence::SavedResponse;
use zero2prod::idempotency::persistence::get_saved_response;
use zero2prod::idempotency::persistence::rollback;
use zero2prod::idempotency::persistence::save_response;
use zero2prod::idempotency::persistence::try_processing;
use zero2prod::idempotency::IdempotencyKey;
use zero2prod::idempotency::ValidationError;

fn key(raw: &str) -> IdempotencyKey {
    IdempotencyKey::parse(raw.to_string()).unwrap()
}

fn response(status: u16, headers: &[(&str, &[u8])], body: &[u8]) -> SavedResponse {
    SavedResponse {
        status_code: status,
        headers: headers
            .iter()
            .map(|(name, value)| HeaderPairRecord {
                name: name.to_string(),
                value: value.to_vec(),
            })
            .collect(),
        body: body.to_vec(),
    }
}

#[test]
fn empty_keys_are_rejected() {
    assert_eq!(
        IdempotencyKey::parse("".to_string()).unwrap_err(),
        ValidationError::Empty
    );
}

#[test]
fn whitespace_keys_are_rejected() {
    assert_eq!(
        IdempotencyKey::parse(" ".to_string()).unwrap_err(),
        ValidationError::InvalidCharacter
    );
}

#[test]
fn overlong_keys_are_rejected() {
    assert_eq!(
        IdempotencyKey::parse("x".repeat(300)).unwrap_err(),
        ValidationError::TooLong
    );
}

#[test]
fn a_valid_key_is_parsed_successfully() {
    let k = IdempotencyKey::parse("abc-123".to_string()).unwrap();
    assert_eq!(k.as_ref(), "abc-123");
}

#[test]
fn key_errors_carry_messages() {
    assert_eq!(
        IdempotencyKey::parse("".to_string()).unwrap_err().message(),
        "the idempotency key cannot be empty"
    );
    assert_eq!(
        IdempotencyKey::parse("x".repeat(51)).unwrap_err().message(),
        "the idempotency key is too long"
    );
    assert_eq!(
        IdempotencyKey::parse("a b".to_string()).unwrap_err().message(),
        "the idempotency key may hold only ASCII letters, digits and hyphens"
    );
}

#[test]
fn a_key_of_fifty_characters_is_accepted() {
    assert!(IdempotencyKey::parse("x".repeat(50)).is_ok());
}

#[test]
fn claims_are_exclusive_until_released() {
    let mut store = IdempotencyStore::new();
    let k = key("job-1");
    let mut inserted = 0;
    let mut already_present = 0;
    for attempt in 0..5u64 {
        match store.insert_claim_if_absent(7, &k, attempt) {
            InsertOutcome::Inserted => inserted += 1,
            InsertOutcome::AlreadyPresent => already_present += 1,
        }
    }
    assert_eq!(inserted, 1);
    assert_eq!(already_present, 4);
}

#[test]
fn finalized_responses_are_replayed_verbatim() {
    let mut store = IdempotencyStore::new();
    let k = key("issue-42");
    let transaction = match try_processing(&mut store, &k, 7, 1).unwrap() {
        NextAction::StartProcessing(t) => t,
        NextAction::ReturnSavedResponse(_) => panic!("fresh key should win the claim"),
    };
    let captured = response(201, &[("X-Test", b"v1")], b"hello");
    let returned = save_response(&mut store, transaction, captured).unwrap();
    assert_eq!(returned.status_code, 201);

    // a retry with the same (user, key) replays the recorded response
    let replayed = match try_processing(&mut store, &k, 7, 2).unwrap() {
        NextAction::ReturnSavedResponse(r) => r,
        NextAction::StartProcessing(_) => panic!("completed key must not be claimed again"),
    };
    assert_eq!(replayed.status_code, 201);
    assert_eq!(replayed.headers.len(), 1);
    assert_eq!(replayed.headers[0].name, "X-Test");
    assert_eq!(replayed.headers[0].value, b"v1".to_vec());
    assert_eq!(replayed.body, b"hello".to_vec());
}

#[test]
fn a_rolled_back_claim_is_reusable() {
    let mut store = IdempotencyStore::new();
    let k = key("retry-me");
    let transaction = match try_processing(&mut store, &k, 7, 1).unwrap() {
        NextAction::StartProcessing(t) => t,
        NextAction::ReturnSavedResponse(_) => panic!("fresh key should win the claim"),
    };
    // simulated failure before finalizing
    rollback(&mut store, transaction);
    match try_processing(&mut store, &k, 7, 2).unwrap() {
        NextAction::StartProcessing(_) => {}
        NextAction::ReturnSavedResponse(_) => panic!("rolled-back key should be claimable again"),
    }
}

#[test]
fn header_order_and_multiplicity_survive_the_round_trip() {
    let mut store = IdempotencyStore::new();
    let k = key("cookies");
    let transaction = match try_processing(&mut store, &k, 7, 1).unwrap() {
        NextAction::StartProcessing(t) => t,
        NextAction::ReturnSavedResponse(_) => panic!("fresh key should win the claim"),
    };
    let captured = response(
        200,
        &[("Set-Cookie", b"a=1"), ("Set-Cookie", b"b=2")],
        b"",
    );
    save_response(&mut store, transaction, captured).unwrap();
    let replayed = get_saved_response(&store, &k, 7).unwrap();
    assert_eq!(replayed.headers.len(), 2);
    assert_eq!(replayed.headers[0].name, "Set-Cookie");
    assert_eq!(replayed.headers[0].value, b"a=1".to_vec());
    assert_eq!(replayed.headers[1].name, "Set-Cookie");
    assert_eq!(replayed.headers[1].value, b"b=2".to_vec());
}

#[test]
fn a_claim_still_in_flight_surfaces_the_invariant_violation() {
    let mut store = IdempotencyStore::new();
    let k = key("in-flight");
    match try_processing(&mut store, &k, 7, 1).unwrap() {
        NextAction::StartProcessing(_) => {}
        NextAction::ReturnSavedResponse(_) => panic!("fresh key should win the claim"),
    }
    let err = try_processing(&mut store, &k, 7, 2).unwrap_err();
    assert_eq!(err, IdempotencyError::InvariantViolation);
    assert_eq!(err.message(), "We expected a saved response, we didn't find it");
}

#[test]
fn finalizing_without_a_claim_is_refused() {
    let mut store = IdempotencyStore::new();
    let k = key("nobody-claimed");
    let captured = response(200, &[], b"");
    let err = store.finalize(7, &k, &captured).unwrap_err();
    assert_eq!(err, IdempotencyError::ClaimNotHeld);
}

#[test]
fn fetch_sees_nothing_before_finalize() {
    let mut store = IdempotencyStore::new();
    let k = key("not-done");
    assert!(store.fetch_completed(7, &k).is_none());
    match try_processing(&mut store, &k, 7, 1).unwrap() {
        NextAction::StartProcessing(_) => {}
        NextAction::ReturnSavedResponse(_) => panic!("fresh key should win the claim"),
    }
    // claimed but not finalized: indistinguishable from absent to this read
    assert!(store.fetch_completed(7, &k).is_none());
}

#[test]
fn records_of_different_users_do_not_interfere() {
    let mut store = IdempotencyStore::new();
    let k = key("shared-key");
    assert!(matches!(
        store.insert_claim_if_absent(1, &k, 1),
        InsertOutcome::Inserted
    ));
    assert!(matches!(
        store.insert_claim_if_absent(2, &k, 1),
        InsertOutcome::Inserted
    ));
    assert!(matches!(
        store.insert_claim_if_absent(1, &k, 2),
        InsertOutcome::AlreadyPresent
    ));
}
