//! Tests of the state store's command operations: partitioning, partial
//! updates, additions, and the profile operations.

use chat_state::model::{Availability, Friend, User};
use chat_state::store::{AppState, CommandError};

fn profile() -> User {
    User {
        name: "Me".to_string(),
        email: "me@example.com".to_string(),
        status: "hello".to_string(),
        availability: Availability::Online,
    }
}

fn friend(name: &str, email: &str, status: &str, availability: Availability) -> Friend {
    Friend {
        name: name.to_string(),
        email: email.to_string(),
        status: status.to_string(),
        availability,
    }
}

fn state_with(friends: Vec<Friend>) -> AppState {
    AppState { user: profile(), friends }
}

#[test]
fn partition_end_to_end() {
    // roster = [{Bob, Busy}, {Ann, Online}, {Zoe, Offline}]
    let st = state_with(vec![
        friend("Bob", "bob@example.com", "", Availability::Busy),
        friend("Ann", "ann@example.com", "", Availability::Online),
        friend("Zoe", "zoe@example.com", "", Availability::Offline),
    ]);
    let (online, offline) = st.friends_by_availability();
    assert_eq!(online.len(), 2);
    assert_eq!(online[0].name, "Ann");
    assert_eq!(online[1].name, "Bob");
    assert_eq!(offline.len(), 1);
    assert_eq!(offline[0].name, "Zoe");
}

#[test]
fn partition_groups_all_non_offline_together() {
    let st = state_with(vec![
        friend("A", "d@x", "", Availability::Away),
        friend("B", "c@x", "", Availability::Busy),
        friend("C", "b@x", "", Availability::Online),
        friend("D", "a@x", "", Availability::Offline),
    ]);
    let (online, offline) = st.friends_by_availability();
    // Away and Busy sit with Online, ordered only by email.
    assert_eq!(online.len(), 3);
    assert_eq!(online[0].email, "b@x");
    assert_eq!(online[1].email, "c@x");
    assert_eq!(online[2].email, "d@x");
    assert_eq!(offline.len(), 1);
    assert_eq!(offline[0].email, "a@x");
}

#[test]
fn partition_is_a_permutation() {
    let roster = vec![
        friend("A", "b@x", "s1", Availability::Online),
        friend("B", "a@x", "s2", Availability::Offline),
        friend("C", "c@x", "s3", Availability::Busy),
        friend("D", "a@x", "s4", Availability::Online),
    ];
    let st = state_with(roster.clone());
    let (online, offline) = st.friends_by_availability();
    assert_eq!(online.len() + offline.len(), roster.len());
    for f in roster.iter() {
        let in_online = online.iter().filter(|g| *g == f).count();
        let in_offline = offline.iter().filter(|g| *g == f).count();
        let in_roster = roster.iter().filter(|g| *g == f).count();
        assert_eq!(in_online + in_offline, in_roster);
    }
    for g in online.iter() {
        assert!(g.availability != Availability::Offline);
    }
    for g in offline.iter() {
        assert!(g.availability == Availability::Offline);
    }
}

#[test]
fn partition_sorts_stably_under_duplicate_emails() {
    let st = state_with(vec![
        friend("first", "dup@x", "1", Availability::Online),
        friend("solo", "aaa@x", "2", Availability::Online),
        friend("second", "dup@x", "3", Availability::Online),
        friend("third", "dup@x", "4", Availability::Online),
    ]);
    let (online, _) = st.friends_by_availability();
    assert_eq!(online.len(), 4);
    assert_eq!(online[0].email, "aaa@x");
    // The three entries with the same email keep their roster order.
    assert_eq!(online[1].name, "first");
    assert_eq!(online[2].name, "second");
    assert_eq!(online[3].name, "third");
}

#[test]
fn partition_of_empty_roster() {
    let st = state_with(vec![]);
    let (online, offline) = st.friends_by_availability();
    assert!(online.is_empty());
    assert!(offline.is_empty());
}

#[test]
fn partition_orders_emails_lexicographically() {
    let st = state_with(vec![
        friend("A", "ab@x", "", Availability::Online),
        friend("B", "a@x", "", Availability::Online),
        friend("C", "b@x", "", Availability::Online),
        friend("D", "", "", Availability::Online),
    ]);
    let (online, _) = st.friends_by_availability();
    assert_eq!(online[0].email, "");
    assert_eq!(online[1].email, "a@x");
    assert_eq!(online[2].email, "ab@x");
    assert_eq!(online[3].email, "b@x");
}

#[test]
fn update_friend_name_only_changes_only_the_name() {
    let mut st = state_with(vec![friend("Old", "a@x", "busy today", Availability::Busy)]);
    let r = st
        .update_friend("a@x".to_string(), Some("New".to_string()), None, None)
        .expect("entry exists");
    assert_eq!(r.name, "New");
    assert_eq!(r.email, "a@x");
    assert_eq!(r.status, "busy today");
    assert_eq!(r.availability, Availability::Busy);
    assert_eq!(st.friends.len(), 1);
    assert_eq!(st.friends[0], r);
}

#[test]
fn update_friend_applies_each_given_field() {
    let mut st = state_with(vec![friend("Old", "a@x", "s", Availability::Online)]);
    let r = st
        .update_friend(
            "a@x".to_string(),
            None,
            Some("away for lunch".to_string()),
            Some(Availability::Away),
        )
        .expect("entry exists");
    assert_eq!(r.name, "Old");
    assert_eq!(r.status, "away for lunch");
    assert_eq!(r.availability, Availability::Away);
}

#[test]
fn update_friend_touches_only_the_first_match() {
    let mut st = state_with(vec![
        friend("first", "dup@x", "1", Availability::Online),
        friend("second", "dup@x", "2", Availability::Online),
    ]);
    let r = st
        .update_friend("dup@x".to_string(), Some("renamed".to_string()), None, None)
        .expect("entry exists");
    assert_eq!(r.name, "renamed");
    assert_eq!(st.friends[0].name, "renamed");
    assert_eq!(st.friends[1].name, "second");
}

#[test]
fn update_friend_absent_email_leaves_roster_unmodified() {
    let original = vec![
        friend("A", "a@x", "1", Availability::Online),
        friend("B", "b@x", "2", Availability::Offline),
    ];
    let mut st = state_with(original.clone());
    let r = st.update_friend("missing@x".to_string(), Some("X".to_string()), None, None);
    match r {
        Err(CommandError::FriendNotFound(email)) => assert_eq!(email, "missing@x"),
        _ => panic!("expected FriendNotFound"),
    }
    assert_eq!(st.friends.len(), original.len());
    assert_eq!(st.friends, original);
}

#[test]
fn add_friend_defaults() {
    let mut st = state_with(vec![]);
    let r = st
        .add_friend("A".to_string(), "a@x.com".to_string(), None, None)
        .expect("add never fails");
    assert_eq!(r.name, "A");
    assert_eq!(r.email, "a@x.com");
    assert_eq!(r.status, "");
    assert_eq!(r.availability, Availability::Online);
    assert_eq!(st.friends.len(), 1);
    assert_eq!(st.friends[0], r);
}

#[test]
fn add_friend_with_explicit_fields() {
    let mut st = state_with(vec![friend("A", "a@x", "", Availability::Online)]);
    let r = st
        .add_friend(
            "B".to_string(),
            "b@x".to_string(),
            Some("around".to_string()),
            Some(Availability::Away),
        )
        .expect("add never fails");
    assert_eq!(r.status, "around");
    assert_eq!(r.availability, Availability::Away);
    assert_eq!(st.friends.len(), 2);
    assert_eq!(st.friends[1], r);
}

#[test]
fn add_friend_permits_duplicate_emails() {
    let mut st = state_with(vec![friend("A", "a@x", "", Availability::Online)]);
    st.add_friend("B".to_string(), "a@x".to_string(), None, None)
        .expect("add never fails");
    assert_eq!(st.friends.len(), 2);
    assert_eq!(st.friends[0].email, st.friends[1].email);
}

#[test]
fn many_adds_with_distinct_emails_lose_nothing() {
    let mut st = state_with(vec![]);
    let n = 50;
    for i in 0..n {
        st.add_friend(format!("friend{}", i), format!("friend{}@x", i), None, None)
            .expect("add never fails");
    }
    assert_eq!(st.friends.len(), n);
    for i in 0..n {
        let email = format!("friend{}@x", i);
        let found = st.find_friend_index(&email);
        assert_eq!(found, Some(i));
    }
}

#[test]
fn find_friend_index_returns_first_match() {
    let st = state_with(vec![
        friend("A", "a@x", "", Availability::Online),
        friend("B", "dup@x", "", Availability::Online),
        friend("C", "dup@x", "", Availability::Online),
    ]);
    assert_eq!(st.find_friend_index("dup@x"), Some(1));
    assert_eq!(st.find_friend_index("a@x"), Some(0));
    assert_eq!(st.find_friend_index("zzz@x"), None);
}

#[test]
fn get_user_returns_a_copy() {
    let st = state_with(vec![]);
    let u = st.get_user().expect("never fails");
    assert_eq!(u, profile());
}

#[test]
fn update_username_changes_only_the_name() {
    let mut st = state_with(vec![friend("A", "a@x", "", Availability::Online)]);
    let u = st.update_username("NewName".to_string()).expect("never fails");
    assert_eq!(u.name, "NewName");
    assert_eq!(u.email, profile().email);
    assert_eq!(u.status, profile().status);
    assert_eq!(u.availability, profile().availability);
    assert_eq!(st.user, u);
    assert_eq!(st.friends.len(), 1);
    assert_eq!(st.friends[0].name, "A");
}

#[test]
fn update_username_permits_empty_name() {
    let mut st = state_with(vec![]);
    let u = st.update_username(String::new()).expect("never fails");
    assert_eq!(u.name, "");
}

#[test]
fn get_friends_matches_partition() {
    let st = state_with(vec![
        friend("A", "b@x", "", Availability::Offline),
        friend("B", "a@x", "", Availability::Online),
    ]);
    let (online, offline) = st.get_friends().expect("never fails");
    let (online2, offline2) = st.friends_by_availability();
    assert_eq!(online, online2);
    assert_eq!(offline, offline2);
}

#[test]
fn command_error_message_text() {
    let e = CommandError::FriendNotFound("a@x".to_string());
    assert_eq!(e.message(), "Friend not found");
}
