use api::env::key;
use api::models::contact::{Contact, Date};
use api::models::email::{Email, is_valid_email};
use api::status::{Health, Status};

#[test]
fn accepts_plain_addresses() {
    assert!(is_valid_email("someone@example.com"));
    assert!(is_valid_email("a@bc.de"));
    assert!(is_valid_email("a+b_c.d@my-site.org"));
    assert!(is_valid_email("a.b@c.co"));
    assert!(is_valid_email("x1@2y.museum"));
}

#[test]
fn accepts_a_valid_prefix_with_trailing_text() {
    assert!(is_valid_email("a@b.co!!!"));
    assert!(is_valid_email("a@b.co and more"));
    assert!(is_valid_email("a@b.commodore"));
}

#[test]
fn rejects_malformed_addresses() {
    assert!(!is_valid_email(""));
    assert!(!is_valid_email("plain"));
    assert!(!is_valid_email("@example.com"));
    assert!(!is_valid_email("a@b"));
    assert!(!is_valid_email("a@b.c"));
    assert!(!is_valid_email("A@b.co"));
    assert!(!is_valid_email(".a@b.co"));
    assert!(!is_valid_email("a@-b.co"));
    assert!(!is_valid_email("a@b--c.co"));
    assert!(!is_valid_email("a@b..co"));
    assert!(!is_valid_email("a@@b.co"));
}

#[test]
fn email_new_validates() {
    let ok = Email::new(String::from("someone@example.com")).unwrap();
    assert_eq!(ok.as_str(), "someone@example.com");
    assert_eq!(ok.as_string(), "someone@example.com");
    assert!(Email::new(String::from("bad format")).is_err());
}

#[test]
fn dates_follow_the_calendar() {
    assert!(Date::new(1990, 4, 30).is_some());
    assert!(Date::new(1990, 4, 31).is_none());
    assert!(Date::new(2000, 2, 29).is_some());
    assert!(Date::new(1900, 2, 29).is_none());
    assert!(Date::new(2024, 2, 29).is_some());
    assert!(Date::new(2023, 2, 29).is_none());
    assert!(Date::new(1990, 13, 1).is_none());
    assert!(Date::new(1990, 0, 1).is_none());
    assert!(Date::new(1990, 1, 0).is_none());
    assert!(Date::new(0, 1, 1).is_none());
}

#[test]
fn contact_name_joins_first_and_last() {
    let contact = Contact {
        first_name: String::from("Ada"),
        last_name: String::from("Lovelace"),
        email: Email::new(String::from("ada@example.com")).unwrap(),
        about: None,
        birthday: Date::new(1815, 12, 10).unwrap(),
    };
    assert_eq!(contact.name(), "Ada Lovelace");
}

#[test]
fn env_keys_are_namespaced_upper_case() {
    assert_eq!(key("log"), "API_LOG");
    assert_eq!(key("postgres_url"), "API_POSTGRES_URL");
    assert_eq!(key(""), "API_");
}

#[test]
fn health_reports_its_status() {
    let health = Health::new(Status::Pass);
    assert_eq!(health.status(), Status::Pass);
    let health = Health::new(Status::Fail);
    assert_eq!(health.status(), Status::Fail);
}
