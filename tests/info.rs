use event_store::prelude::EventType;
use event_store::{Date, Id, Info, SystemUser, UserType};

struct Ping;

impl EventType for Ping {
    fn stream_type() -> &'static str {
        "ping"
    }
}

#[test]
fn id_text_is_lowercase_hyphenated() {
    let id = Id::from_u128(0x936DA01F9ABD4D9D80C702AF85C822A8);
    assert_eq!(id.to_string(), "936da01f-9abd-4d9d-80c7-02af85c822a8");
    assert_eq!(Id::from_u128(0).to_string(), "00000000-0000-0000-0000-000000000000");
}

#[test]
fn id_parse_round_trip() {
    for _ in 0..20 {
        let id = Id::random();
        let back = Id::parse(&id.to_string()).unwrap();
        assert_eq!(back, id);
        let via_from_str: Id = id.to_string().parse().unwrap();
        assert_eq!(via_from_str, id);
    }
}

#[test]
fn id_parse_reads_the_value() {
    let id = Id::parse("936da01f-9abd-4d9d-80c7-02af85c822a8").unwrap();
    assert_eq!(id.as_u128(), 0x936DA01F9ABD4D9D80C702AF85C822A8);
}

#[test]
fn id_parse_rejects_malformed_text() {
    assert!(Id::parse("not an id").is_err());
    assert!(Id::parse("").is_err());
    assert!(Id::parse("936da01f-9abd-4d9d-80c7-02af85c822zz").is_err());
}

#[test]
fn random_ids_differ() {
    assert_ne!(Id::random(), Id::random());
}

#[test]
fn actors() {
    let id = Id::from_u128(7);
    assert_eq!(UserType::guest(), UserType::System(SystemUser::Guest));
    assert_eq!(UserType::root(), UserType::System(SystemUser::Root));
    assert_eq!(UserType::user(id), UserType::User(id));
}

#[test]
fn date_now_is_after_the_epoch() {
    let d = Date::now();
    assert!(d.secs > 1_500_000_000);
    assert!(d.nanos < 1_000_000_000);
}

#[test]
fn info_new_starts_at_version_one() {
    let info = Info::new::<Ping>(UserType::root());
    assert_eq!(info.version, 1);
    assert_eq!(info.stream, "ping");
    assert_eq!(info.user, UserType::root());
}

#[test]
fn info_increase_keeps_id_and_stream() {
    let info = Info::new::<Ping>(UserType::guest());
    let user = UserType::user(info.id);
    let next = info.clone().increase(user);
    assert_eq!(next.version, 2);
    assert_eq!(next.id, info.id);
    assert_eq!(next.stream, "ping");
    assert_eq!(next.user, user);
}

#[test]
fn info_date_sets_the_timestamp() {
    let d = Date { secs: 86_400, nanos: 5 };
    let info = Info::new::<Ping>(UserType::guest()).date(d);
    assert_eq!(info.date, d);
    assert_eq!(info.version, 1);
}

#[test]
fn id_parse_accepts_every_form_in_either_case() {
    let v = 0x936DA01F9ABD4D9D80C702AF85C822A8u128;
    for text in [
        "936DA01F-9ABD-4D9D-80C7-02AF85C822A8",
        "936da01f9abd4d9d80c702af85c822a8",
        "936DA01F9ABD4D9D80C702AF85C822A8",
        "urn:uuid:936da01f-9abd-4d9d-80c7-02af85c822a8",
        "936Da01F-9aBD-4d9D-80c7-02AF85c822a8",
    ] {
        assert_eq!(Id::parse(text).unwrap().as_u128(), v, "{}", text);
    }
}

#[test]
fn id_parse_rejects_other_lengths_and_misplaced_hyphens() {
    assert!(Id::parse("936da01f-9abd-4d9d-80c7-02af85c822a").is_err());
    assert!(Id::parse("936da01f-9abd-4d9d-80c7-02af85c822a88").is_err());
    assert!(Id::parse("936da01f9-abd-4d9d-80c7-02af85c822a8").is_err());
    assert!(Id::parse("urn:uuid:936da01f9abd4d9d80c702af85c822a8").is_err());
    assert!(Id::parse("936da01f-9abd-4d9d-80c7-02af85c822ä").is_err());
}

#[test]
fn random_ids_are_version_four_rfc4122() {
    for _ in 0..20 {
        let v = Id::random().as_u128();
        assert_eq!((v >> 76) & 0xf, 4);
        assert_eq!((v >> 62) & 0x3, 2);
    }
    let info = Info::new::<Ping>(UserType::guest());
    assert_eq!((info.id.as_u128() >> 76) & 0xf, 4);
    assert!(info.date.nanos < 1_000_000_000);
}
