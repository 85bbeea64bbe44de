use zero2prod::domain::NewSubscriber;
use zero2prod::domain::SubscriberName;

#[test]
fn a_256_grapheme_long_name_is_valid() {
    let name = "ë".repeat(256);
    assert!(SubscriberName::parse(name).is_ok());
}

#[test]
fn a_name_longer_than_256_graphemes_is_rejected() {
    let name = "a".repeat(257);
    assert!(SubscriberName::parse(name).is_err());
}

#[test]
fn whitespace_only_names_are_rejected() {
    let name = " ".to_string();
    assert!(SubscriberName::parse(name).is_err());
}

#[test]
fn empty_string_is_rejected() {
    let name = "".to_string();
    assert!(SubscriberName::parse(name).is_err());
}

#[test]
fn names_containing_an_invalid_character_are_rejected() {
    for name in &['/', '(', ')', '"', '<', '>', '\\', '{', '}'] {
        let name = name.to_string();
        assert!(SubscriberName::parse(name).is_err());
    }
}

#[test]
fn a_valid_name_is_parsed_successfully() {
    let name = "Ursula Le Guin".to_string();
    assert!(SubscriberName::parse(name).is_ok());
}

#[test]
fn a_parsed_name_exposes_the_input_unchanged() {
    let name = SubscriberName::parse("Ursula Le Guin".to_string()).unwrap();
    assert_eq!(name.as_ref(), "Ursula Le Guin");
}

#[test]
fn a_rejected_name_reports_the_reason() {
    let err = SubscriberName::parse("{}".to_string()).unwrap_err();
    assert_eq!(err, "{} is not a valid subscriber name.");
}

#[test]
fn a_name_of_exactly_257_identical_graphemes_of_two_chars_is_rejected() {
    let name = "ë".repeat(257);
    assert!(SubscriberName::parse(name).is_err());
}

#[test]
fn a_new_subscriber_keeps_email_and_validates_name() {
    let ns = NewSubscriber::new(
        "ursula_le_guin@gmail.com".to_string(),
        "le guin".to_string(),
    )
    .unwrap();
    assert_eq!(ns.email, "ursula_le_guin@gmail.com");
    assert_eq!(ns.name.as_ref(), "le guin");
    assert!(NewSubscriber::new("someone@example.com".to_string(), "".to_string()).is_err());
}
