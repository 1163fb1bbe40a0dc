use pinterest_payload::event::ClientContext;
use pinterest_payload::event::Consent;
use pinterest_payload::event::Event;
use pinterest_payload::event::EventContext;
use pinterest_payload::event::EventData;
use pinterest_payload::event::PageContext;
use pinterest_payload::event::UserContext;
use pinterest_payload::payload::BuildError;
use pinterest_payload::payload::ConfigError;
use pinterest_payload::payload::PinterestEvent;
use pinterest_payload::payload::PinterestPayload;
use sha2::Digest;

fn reference_hex(input: &str) -> String {
    let digest = sha2::Sha256::digest(input.as_bytes());
    let mut out = String::new();
    for b in digest.iter() {
        out.push_str(&format!("{:02x}", b));
    }
    out
}

fn pairs(entries: &[(&str, &str)]) -> Vec<(String, String)> {
    entries.iter().map(|(k, v)| (String::from(*k), String::from(*v))).collect()
}

fn event_with(properties: &[(&str, &str)], consent: Option<Consent>) -> Event {
    Event {
        uuid: String::from("evt-42"),
        timestamp: 1700000000,
        context: EventContext {
            page: PageContext {
                url: String::from("https://x.com/p"),
                search: String::from("?a=1"),
            },
            client: ClientContext {
                ip: String::from("203.0.113.7"),
                user_agent: String::from("agent/1.0"),
            },
            user: UserContext {
                user_id: String::from("u1"),
                properties: pairs(properties),
            },
        },
        data: EventData::Other,
        consent,
    }
}

#[test]
fn consent_denied_rejects_regardless_of_properties() {
    let ev = event_with(&[("email", "a@b.com"), ("city", "Paris")], Some(Consent::Denied));
    assert_eq!(PinterestEvent::new(&ev, "checkout"), Err(BuildError::ConsentNotGranted));
    let bare = event_with(&[], Some(Consent::Denied));
    assert_eq!(PinterestEvent::new(&bare, "checkout"), Err(BuildError::ConsentNotGranted));
}

#[test]
fn empty_properties_reject_when_consent_allows() {
    let unset = event_with(&[], None);
    assert_eq!(PinterestEvent::new(&unset, "checkout"), Err(BuildError::EmptyUserProperties));
    let granted = event_with(&[], Some(Consent::Granted));
    assert_eq!(PinterestEvent::new(&granted, "checkout"), Err(BuildError::EmptyUserProperties));
}

#[test]
fn missing_email_rejects_after_hashing_other_fields() {
    let ev = event_with(&[("first_name", "Ann")], None);
    assert_eq!(PinterestEvent::new(&ev, "checkout"), Err(BuildError::MissingEmail));
}

#[test]
fn successful_build_hashes_identity_fields() {
    let ev = event_with(&[("email", "a@b.com"), ("city", "Paris")], None);
    let rec = PinterestEvent::new(&ev, "checkout").unwrap();
    assert_eq!(rec.event_name, "checkout");
    assert_eq!(rec.event_time, 1700000000);
    assert_eq!(rec.event_id, "evt-42");
    assert_eq!(rec.action_source, "web");
    assert_eq!(rec.event_source_url.as_deref(), Some("https://x.com/p?a=1"));
    assert_eq!(rec.custom_data, Some(Vec::new()));
    let u = &rec.user_data;
    assert_eq!(u.email.as_deref(), Some(reference_hex("a@b.com").as_str()));
    assert_eq!(u.city.as_deref(), Some(reference_hex("Paris").as_str()));
    assert_eq!(u.external_id.as_deref(), Some(reference_hex("u1").as_str()));
    assert_eq!(u.client_ip_address.as_deref(), Some("203.0.113.7"));
    assert_eq!(u.client_user_agent.as_deref(), Some("agent/1.0"));
    assert_eq!(u.phone_number, None);
    assert_eq!(u.first_name, None);
    assert_eq!(u.last_name, None);
    assert_eq!(u.date_of_birth, None);
    assert_eq!(u.gender, None);
    assert_eq!(u.state, None);
    assert_eq!(u.zip_code, None);
    assert_eq!(u.country, None);
    assert_eq!(u.click_id, None);
}

#[test]
fn all_ten_recognized_fields_are_hashed() {
    let props = [
        ("email", "e@x.com"),
        ("phone_number", "+3312345678"),
        ("first_name", "Ann"),
        ("last_name", "Lee"),
        ("gender", "f"),
        ("date_of_birth", "1990-01-02"),
        ("city", "Paris"),
        ("state", "IDF"),
        ("zip_code", "75001"),
        ("country", "FR"),
    ];
    let ev = event_with(&props, Some(Consent::Granted));
    let rec = PinterestEvent::new(&ev, "signup").unwrap();
    let u = &rec.user_data;
    assert_eq!(u.email.as_deref(), Some(reference_hex("e@x.com").as_str()));
    assert_eq!(u.phone_number.as_deref(), Some(reference_hex("+3312345678").as_str()));
    assert_eq!(u.first_name.as_deref(), Some(reference_hex("Ann").as_str()));
    assert_eq!(u.last_name.as_deref(), Some(reference_hex("Lee").as_str()));
    assert_eq!(u.gender.as_deref(), Some(reference_hex("f").as_str()));
    assert_eq!(u.date_of_birth.as_deref(), Some(reference_hex("1990-01-02").as_str()));
    assert_eq!(u.city.as_deref(), Some(reference_hex("Paris").as_str()));
    assert_eq!(u.state.as_deref(), Some(reference_hex("IDF").as_str()));
    assert_eq!(u.zip_code.as_deref(), Some(reference_hex("75001").as_str()));
    assert_eq!(u.country.as_deref(), Some(reference_hex("FR").as_str()));
}

#[test]
fn event_source_url_concatenates_url_and_search() {
    let ev = event_with(&[("email", "a@b.com")], None);
    let rec = PinterestEvent::new(&ev, "view").unwrap();
    assert_eq!(rec.event_source_url.as_deref(), Some("https://x.com/p?a=1"));
}

#[test]
fn event_source_url_absent_for_empty_url() {
    let mut ev = event_with(&[("email", "a@b.com")], None);
    ev.context.page.url = String::new();
    let rec = PinterestEvent::new(&ev, "view").unwrap();
    assert_eq!(rec.event_source_url, None);
}

#[test]
fn external_id_absent_for_empty_user_id() {
    let mut ev = event_with(&[("email", "a@b.com")], None);
    ev.context.user.user_id = String::new();
    let rec = PinterestEvent::new(&ev, "view").unwrap();
    assert_eq!(rec.user_data.external_id, None);
}

#[test]
fn unrecognized_keys_are_dropped_and_do_not_affect_outcome() {
    let with_extra = event_with(&[("email", "a@b.com"), ("favorite_color", "teal")], None);
    let without = event_with(&[("email", "a@b.com")], None);
    let a = PinterestEvent::new(&with_extra, "view").unwrap();
    let b = PinterestEvent::new(&without, "view").unwrap();
    assert_eq!(a.user_data.email, b.user_data.email);
    assert_eq!(a.user_data.city, None);
    assert_eq!(a.custom_data, Some(Vec::new()));
    let only_extra = event_with(&[("favorite_color", "teal")], None);
    assert_eq!(PinterestEvent::new(&only_extra, "view"), Err(BuildError::MissingEmail));
}

#[test]
fn payload_data_properties_replace_context_properties() {
    let mut ev = event_with(&[("email", "a@b.com")], None);
    ev.data = EventData::User(pairs(&[("first_name", "Ann")]));
    assert_eq!(PinterestEvent::new(&ev, "view"), Err(BuildError::MissingEmail));

    let mut ev2 = event_with(&[("first_name", "Ann")], None);
    ev2.data = EventData::User(pairs(&[("email", "b@c.org")]));
    let rec = PinterestEvent::new(&ev2, "view").unwrap();
    assert_eq!(rec.user_data.email.as_deref(), Some(reference_hex("b@c.org").as_str()));
    assert_eq!(rec.user_data.first_name, None);
}

#[test]
fn later_duplicate_property_wins() {
    let ev = event_with(&[("email", "x@y.z"), ("email", "final@y.z")], None);
    let rec = PinterestEvent::new(&ev, "view").unwrap();
    assert_eq!(rec.user_data.email.as_deref(), Some(reference_hex("final@y.z").as_str()));
}

#[test]
fn payload_requires_access_token() {
    let settings = pairs(&[("pinterest_ad_account_id", "acct-1")]);
    assert_eq!(PinterestPayload::new(&settings), Err(ConfigError::MissingAccessToken));
}

#[test]
fn payload_requires_ad_account_id() {
    let settings = pairs(&[("pinterest_access_token", "SECRET-REDACTED")]);
    assert_eq!(PinterestPayload::new(&settings), Err(ConfigError::MissingAdAccountId));
}

#[test]
fn payload_reads_settings() {
    let settings = pairs(&[
        ("pinterest_access_token", "SECRET-REDACTED"),
        ("pinterest_ad_account_id", "acct-1"),
    ]);
    let p = PinterestPayload::new(&settings).unwrap();
    assert_eq!(p.access_token, "SECRET-REDACTED");
    assert_eq!(p.ad_account_id, "acct-1");
    assert!(!p.is_test);
    assert!(p.data.is_empty());
}

#[test]
fn payload_test_mode_flag_is_case_insensitive() {
    for (raw, expected) in [("true", true), ("TRUE", true), ("TrUe", true), ("false", false), ("1", false), ("yes", false)] {
        let settings = pairs(&[
            ("pinterest_access_token", "SECRET-REDACTED"),
            ("pinterest_ad_account_id", "acct-1"),
            ("is_test", raw),
        ]);
        let p = PinterestPayload::new(&settings).unwrap();
        assert_eq!(p.is_test, expected, "raw {:?}", raw);
    }
}
