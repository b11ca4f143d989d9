//! Tests of the bootstrap loader and the data model: JSON decoding through
//! the real parser, availability decoding with its fallback, and the
//! assembly functions.

use chat_state::loader::{friend_from_parts, load_friends_list, load_user, user_from_parts, LoadError};
use chat_state::model::Availability;
use chat_state::store::init_state;

const USER_DOC: &str = r#"{
    "name": "Me",
    "email": "me@example.com",
    "status": "hello there",
    "availability": "Away"
}"#;

const FRIENDS_DOC: &str = r#"[
    {"name": "Bob", "email": "bob@example.com", "status": "", "availability": "Busy"},
    {"name": "Ann", "email": "ann@example.com", "status": "hi", "availability": "Online"},
    {"name": "Zoe", "email": "zoe@example.com", "status": "", "availability": "Offline"}
]"#;

#[test]
fn load_user_reads_all_fields() {
    let u = load_user(USER_DOC).expect("valid document");
    assert_eq!(u.name, "Me");
    assert_eq!(u.email, "me@example.com");
    assert_eq!(u.status, "hello there");
    assert_eq!(u.availability, Availability::Away);
}

#[test]
fn load_user_rejects_invalid_json() {
    assert_eq!(load_user("not json at all {"), Err(LoadError::InvalidJson));
}

#[test]
fn load_user_rejects_missing_field() {
    let doc = r#"{"name": "Me", "email": "me@x", "availability": "Online"}"#;
    assert_eq!(load_user(doc), Err(LoadError::MissingField));
}

#[test]
fn load_user_rejects_non_string_field() {
    let doc = r#"{"name": "Me", "email": "me@x", "status": 7, "availability": "Online"}"#;
    assert_eq!(load_user(doc), Err(LoadError::MissingField));
}

#[test]
fn load_user_ignores_extra_fields() {
    let doc = r#"{"name": "Me", "email": "me@x", "status": "", "availability": "Busy", "color": "red"}"#;
    let u = load_user(doc).expect("valid document");
    assert_eq!(u.name, "Me");
    assert_eq!(u.availability, Availability::Busy);
}

#[test]
fn load_user_rejects_non_object_document() {
    // Valid JSON, but no object: every required field is absent.
    assert_eq!(load_user("[1, 2]"), Err(LoadError::MissingField));
    assert_eq!(load_user("\"text\""), Err(LoadError::MissingField));
}

#[test]
fn load_user_unknown_availability_falls_back_to_offline() {
    let doc = r#"{"name": "Me", "email": "me@x", "status": "", "availability": "Sleeping"}"#;
    let u = load_user(doc).expect("valid document");
    assert_eq!(u.availability, Availability::Offline);
}

#[test]
fn load_friends_list_reads_all_entries() {
    let friends = load_friends_list(FRIENDS_DOC).expect("valid document");
    assert_eq!(friends.len(), 3);
    assert_eq!(friends[0].name, "Bob");
    assert_eq!(friends[0].availability, Availability::Busy);
    assert_eq!(friends[1].name, "Ann");
    assert_eq!(friends[1].availability, Availability::Online);
    assert_eq!(friends[2].name, "Zoe");
    assert_eq!(friends[2].availability, Availability::Offline);
}

#[test]
fn load_friends_list_of_empty_array() {
    let friends = load_friends_list("[]").expect("valid document");
    assert!(friends.is_empty());
}

#[test]
fn load_friends_list_rejects_invalid_json() {
    assert_eq!(load_friends_list("[{]"), Err(LoadError::InvalidJson));
}

#[test]
fn load_friends_list_rejects_non_array() {
    assert_eq!(
        load_friends_list(r#"{"name": "Bob"}"#),
        Err(LoadError::NotAnArray)
    );
}

#[test]
fn load_friends_list_rejects_malformed_entry() {
    let doc = r#"[{"name": "Bob", "email": "b@x", "status": "", "availability": "Busy"},
                  {"name": "NoEmail", "status": "", "availability": "Online"}]"#;
    assert_eq!(load_friends_list(doc), Err(LoadError::MissingField));
}

#[test]
fn init_state_builds_the_aggregate() {
    let st = init_state(USER_DOC, FRIENDS_DOC).expect("valid documents");
    assert_eq!(st.user.name, "Me");
    assert_eq!(st.friends.len(), 3);
}

#[test]
fn init_state_propagates_either_failure() {
    assert_eq!(init_state("{", FRIENDS_DOC), Err(LoadError::InvalidJson));
    assert_eq!(init_state(USER_DOC, "{}"), Err(LoadError::NotAnArray));
}

#[test]
fn decode_recognizes_the_four_names() {
    assert_eq!(Availability::decode("Online"), Availability::Online);
    assert_eq!(Availability::decode("Away"), Availability::Away);
    assert_eq!(Availability::decode("Busy"), Availability::Busy);
    assert_eq!(Availability::decode("Offline"), Availability::Offline);
}

#[test]
fn decode_falls_back_to_offline() {
    assert_eq!(Availability::decode(""), Availability::Offline);
    assert_eq!(Availability::decode("online"), Availability::Offline);
    assert_eq!(Availability::decode("ONLINE"), Availability::Offline);
    assert_eq!(Availability::decode("Onlin"), Availability::Offline);
    assert_eq!(Availability::decode("Online "), Availability::Offline);
}

#[test]
fn to_text_names_round_trip_through_decode() {
    for a in [
        Availability::Online,
        Availability::Away,
        Availability::Busy,
        Availability::Offline,
    ] {
        assert_eq!(Availability::decode(&a.to_text()), a);
    }
}

#[test]
fn to_icon_gives_one_icon_per_state() {
    assert_eq!(Availability::Online.to_icon(), "👤");
    assert_eq!(Availability::Away.to_icon(), "⏳");
    assert_eq!(Availability::Busy.to_icon(), "⛔");
    assert_eq!(Availability::Offline.to_icon(), "📴");
}

#[test]
fn user_from_parts_decodes_availability() {
    let u = user_from_parts(
        "A".to_string(),
        "a@x".to_string(),
        "s".to_string(),
        "Busy",
    );
    assert_eq!(u.availability, Availability::Busy);
    assert_eq!(u.name, "A");
}

#[test]
fn friend_from_parts_decodes_availability() {
    let f = friend_from_parts(
        "A".to_string(),
        "a@x".to_string(),
        "s".to_string(),
        "nonsense",
    );
    assert_eq!(f.availability, Availability::Offline);
    assert_eq!(f.email, "a@x");
}

#[test]
fn load_error_messages() {
    assert_eq!(LoadError::InvalidJson.message(), "document is not valid JSON");
    assert_eq!(
        LoadError::NotAnArray.message(),
        "roster document is not a JSON array"
    );
    assert_eq!(
        LoadError::MissingField.message(),
        "a required field is absent or is not a string"
    );
}
