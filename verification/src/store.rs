//! The state store and its command operations. One [`AppState`] value —
//! the single user's profile and the friend roster — is built once at
//! startup and then read and mutated only through the operations here,
//! each a synchronous critical section when the process wraps the state in
//! an exclusive-access guard. Every operation returns independent copies,
//! never references into the store.

use vstd::prelude::*;

use crate::loader::{
    json_doc, json_elements, load_friends_list, load_user, profile_load_error, roster_load_error,
    roster_matches, user_matches_record, LoadError,
};
use crate::model::{is_patched, Availability, Friend, User};
use crate::order::str_eq;
use crate::sort::{
    has_email, lemma_filter_push, lemma_sort_by_email_multiset, lemma_sort_by_email_sorted,
    lemma_sort_by_email_stable, sort_by_email, sort_friends_by_email, sorted_by_email,
};

verus! {

/// A recoverable failure of a command, surfaced to the caller as a value.
#[derive(Clone, Debug, PartialEq)]
pub enum CommandError {
    /// No roster entry carries the given email.
    FriendNotFound(String),
}

impl CommandError {
    /// The text shown for this failure.
    pub fn message(&self) -> (r: String)
        ensures
            r@ == "Friend not found"@,
    {
        match self {
            CommandError::FriendNotFound(_) => "Friend not found".to_owned(),
        }
    }
}

/// Whether a roster entry counts as offline. Only `Offline` does:
/// `Online`, `Away` and `Busy` are all grouped as present.
pub open spec fn is_offline(f: Friend) -> bool {
    f.availability is Offline
}

/// The predicate selecting the entries that are not offline.
pub open spec fn online_pred() -> spec_fn(Friend) -> bool {
    |f: Friend| !is_offline(f)
}

/// The predicate selecting the offline entries.
pub open spec fn offline_pred() -> spec_fn(Friend) -> bool {
    |f: Friend| is_offline(f)
}

/// The first listing a partition returns: the entries not offline, in
/// roster order, then stably sorted by ascending email.
pub open spec fn online_part(s: Seq<Friend>) -> Seq<Friend> {
    sort_by_email(s.filter(online_pred()))
}

/// The second listing a partition returns: the offline entries, in roster
/// order, then stably sorted by ascending email.
pub open spec fn offline_part(s: Seq<Friend>) -> Seq<Friend> {
    sort_by_email(s.filter(offline_pred()))
}

/// `i` is the first roster position whose entry carries `email`.
pub open spec fn first_match(s: Seq<Friend>, email: Seq<char>, i: int) -> bool {
    &&& 0 <= i < s.len()
    &&& s[i].email@ == email
    &&& forall|j: int| 0 <= j < i ==> s[j].email@ != email
}

/// The aggregate state: the single user's profile and the friend roster.
#[derive(Clone, Debug, PartialEq)]
pub struct AppState {
    pub user: User,
    pub friends: Vec<Friend>,
}

impl AppState {
    /// Splits the roster in two: entries whose availability is not
    /// `Offline`, and entries whose availability is `Offline`, each
    /// listing sorted ascending by email, stably.
    pub fn friends_by_availability(&self) -> (r: (Vec<Friend>, Vec<Friend>))
        ensures
            r.0@ == online_part(self.friends@),
            r.1@ == offline_part(self.friends@),
    {
        let mut online_friends: Vec<Friend> = Vec::new();
        let mut offline_friends: Vec<Friend> = Vec::new();
        let mut i: usize = 0;
        while i < self.friends.len()
            invariant
                i <= self.friends.len(),
                online_friends@ == self.friends@.subrange(0, i as int).filter(online_pred()),
                offline_friends@ == self.friends@.subrange(0, i as int).filter(offline_pred()),
            decreases self.friends.len() - i,
        {
            let f = self.friends[i].duplicate();
            proof {
                lemma_filter_push(
                    self.friends@.subrange(0, i as int),
                    self.friends@[i as int],
                    online_pred(),
                );
                lemma_filter_push(
                    self.friends@.subrange(0, i as int),
                    self.friends@[i as int],
                    offline_pred(),
                );
                assert(self.friends@.subrange(0, (i + 1) as int) =~= self.friends@.subrange(
                    0,
                    i as int,
                ).push(self.friends@[i as int]));
            }
            match f.availability {
                Availability::Offline => offline_friends.push(f),
                _ => online_friends.push(f),
            }
            i = i + 1;
        }
        proof {
            assert(self.friends@.subrange(0, self.friends@.len() as int) =~= self.friends@);
        }
        sort_friends_by_email(&mut online_friends);
        sort_friends_by_email(&mut offline_friends);
        (online_friends, offline_friends)
    }

    /// The position of the first roster entry carrying `email`, `None`
    /// when no entry does.
    pub fn find_friend_index(&self, email: &str) -> (r: Option<usize>)
        ensures
            match r {
                Some(i) => first_match(self.friends@, email@, i as int),
                None => forall|j: int|
                    0 <= j < self.friends@.len() ==> self.friends@[j].email@ != email@,
            },
    {
        let mut i: usize = 0;
        while i < self.friends.len()
            invariant
                i <= self.friends.len(),
                forall|j: int| 0 <= j < i ==> self.friends@[j].email@ != email@,
            decreases self.friends.len() - i,
        {
            if str_eq(self.friends[i].email.as_str(), email) {
                return Some(i);
            }
            i = i + 1;
        }
        None
    }

    /// A copy of the current profile; the state is not touched.
    pub fn get_user(&self) -> (r: Result<User, CommandError>)
        ensures
            match r {
                Ok(u) => u == self.user,
                Err(_) => false,
            },
    {
        Ok(self.user.duplicate())
    }

    /// Replaces the profile's display name and returns a copy of the
    /// updated profile. Every other field, and the roster, is untouched;
    /// the new name is not validated (the empty string is permitted).
    pub fn update_username(&mut self, name: String) -> (r: Result<User, CommandError>)
        ensures
            final(self).user.name == name,
            final(self).user.email == old(self).user.email,
            final(self).user.status == old(self).user.status,
            final(self).user.availability == old(self).user.availability,
            final(self).friends == old(self).friends,
            match r {
                Ok(u) => u == final(self).user,
                Err(_) => false,
            },
    {
        self.user.name = name;
        Ok(self.user.duplicate())
    }

    /// The partitioned roster listing, as a command: never fails.
    pub fn get_friends(&self) -> (r: Result<(Vec<Friend>, Vec<Friend>), CommandError>)
        ensures
            match r {
                Ok(p) => p.0@ == online_part(self.friends@) && p.1@ == offline_part(
                    self.friends@,
                ),
                Err(_) => false,
            },
    {
        Ok(self.friends_by_availability())
    }

    /// Applies a partial update to the first roster entry carrying
    /// `email` and returns a copy of the updated entry. Exactly that entry
    /// changes, and only in the supplied fields. When no entry carries
    /// `email`, fails with `FriendNotFound` and leaves the state as it
    /// was.
    pub fn update_friend(
        &mut self,
        email: String,
        name: Option<String>,
        status: Option<String>,
        availability: Option<Availability>,
    ) -> (r: Result<Friend, CommandError>)
        ensures
            match r {
                Ok(f) => exists|i: int|
                    {
                        &&& #[trigger] first_match(old(self).friends@, email@, i)
                        &&& is_patched(old(self).friends@[i], name, status, availability, f)
                        &&& final(self).friends@ == old(self).friends@.update(i, f)
                    },
                Err(e) => {
                    &&& *final(self) == *old(self)
                    &&& (e matches CommandError::FriendNotFound(em) && em == email)
                    &&& forall|j: int|
                        0 <= j < old(self).friends@.len() ==> old(
                            self,
                        ).friends@[j].email@ != email@
                },
            },
            final(self).user == old(self).user,
    {
        let found = self.find_friend_index(email.as_str());
        match found {
            Some(i) => {
                self.friends[i].update(name, status, availability);
                let f = self.friends[i].duplicate();
                proof {
                    assert(first_match(old(self).friends@, email@, i as int));
                }
                Ok(f)
            },
            None => Err(CommandError::FriendNotFound(email)),
        }
    }

    /// Builds a new entry from the given fields — status defaulting to the
    /// empty string, availability to `Online` — appends it to the roster,
    /// and returns a copy of it. Never fails, and checks nothing against
    /// existing entries: a duplicate email is appended as given.
    pub fn add_friend(
        &mut self,
        name: String,
        email: String,
        status: Option<String>,
        availability: Option<Availability>,
    ) -> (r: Result<Friend, CommandError>)
        ensures
            final(self).user == old(self).user,
            match r {
                Ok(f) => {
                    &&& final(self).friends@ == old(self).friends@.push(f)
                    &&& final(self).friends@.len() == old(self).friends@.len() + 1
                    &&& f.name == name
                    &&& f.email == email
                    &&& (match status {
                        Some(s) => f.status == s,
                        None => f.status@ == Seq::<char>::empty(),
                    })
                    &&& (match availability {
                        Some(a) => f.availability == a,
                        None => f.availability == Availability::Online,
                    })
                },
                Err(_) => false,
            },
    {
        let friend = Friend::new(name, email, status, availability);
        let out = friend.duplicate();
        self.friends.push(friend);
        Ok(out)
    }
}

/// Builds the aggregate state from the two bootstrap documents, roster
/// first, as the process does once at startup. Succeeds exactly when both
/// loads do, and then holds exactly their two results; either load
/// failure is surfaced unchanged — the roster's first — and no synthetic
/// state is substituted.
pub fn init_state(user_text: &str, friends_text: &str) -> (r: Result<AppState, LoadError>)
    ensures
        r is Ok <==> (roster_load_error(friends_text@) is None && profile_load_error(user_text@)
            is None),
        match r {
            Ok(st) => {
                &&& (json_doc(friends_text@) matches Some(fdoc) && json_elements(fdoc)
                    matches Some(elems) && roster_matches(st.friends@, elems))
                &&& (json_doc(user_text@) matches Some(udoc) && user_matches_record(
                    st.user,
                    udoc,
                ))
            },
            Err(e) => match roster_load_error(friends_text@) {
                Some(re) => e == re,
                None => profile_load_error(user_text@) == Some(e),
            },
        },
{
    let friends = match load_friends_list(friends_text) {
        Ok(f) => f,
        Err(e) => {
            return Err(e);
        },
    };
    let user = match load_user(user_text) {
        Ok(u) => u,
        Err(e) => {
            return Err(e);
        },
    };
    Ok(AppState { user, friends })
}

/// Law: partitioning loses nothing and invents nothing. The two listings
/// together hold exactly the roster's entries — their multisets add up to
/// the roster's — and they are disjoint by construction: every entry of
/// the first is not offline, every entry of the second is.
pub proof fn lemma_partition_complete(s: Seq<Friend>)
    ensures
        online_part(s).to_multiset().add(offline_part(s).to_multiset()) =~= s.to_multiset(),
        online_part(s).len() + offline_part(s).len() == s.len(),
        forall|k: int| 0 <= k < online_part(s).len() ==> !is_offline(#[trigger] online_part(s)[k]),
        forall|k: int| 0 <= k < offline_part(s).len() ==> is_offline(#[trigger] offline_part(s)[k]),
{
    broadcast use vstd::seq_lib::group_to_multiset_ensures;
    broadcast use vstd::multiset::group_multiset_axioms;
    broadcast use vstd::seq_lib::group_filter_ensures;

    lemma_sort_by_email_multiset(s.filter(online_pred()));
    lemma_sort_by_email_multiset(s.filter(offline_pred()));
    lemma_filter_split_multiset(s);
    assert(online_part(s).len() == online_part(s).to_multiset().len());
    assert(offline_part(s).len() == offline_part(s).to_multiset().len());
    assert(s.len() == s.to_multiset().len());
    assert(online_part(s).to_multiset().add(offline_part(s).to_multiset()).len() == online_part(
        s,
    ).to_multiset().len() + offline_part(s).to_multiset().len());
    assert forall|k: int| 0 <= k < online_part(s).len() implies !is_offline(
        #[trigger] online_part(s)[k],
    ) by {
        let g = online_part(s)[k];
        assert(online_part(s).contains(g));
        assert(s.filter(online_pred()).to_multiset().contains(g));
        assert(s.filter(online_pred()).contains(g));
        let m = choose|m: int|
            0 <= m < s.filter(online_pred()).len() && s.filter(online_pred())[m] == g;
        assert(online_pred()(s.filter(online_pred())[m]));
    }
    assert forall|k: int| 0 <= k < offline_part(s).len() implies is_offline(
        #[trigger] offline_part(s)[k],
    ) by {
        let g = offline_part(s)[k];
        assert(offline_part(s).contains(g));
        assert(s.filter(offline_pred()).to_multiset().contains(g));
        assert(s.filter(offline_pred()).contains(g));
        let m = choose|m: int|
            0 <= m < s.filter(offline_pred()).len() && s.filter(offline_pred())[m] == g;
        assert(offline_pred()(s.filter(offline_pred())[m]));
    }
}

/// Entries kept by the two opposite filters add up, as multisets, to the
/// whole roster.
proof fn lemma_filter_split_multiset(s: Seq<Friend>)
    ensures
        s.filter(online_pred()).to_multiset().add(s.filter(offline_pred()).to_multiset())
            =~= s.to_multiset(),
    decreases s.len(),
{
    broadcast use vstd::seq_lib::group_to_multiset_ensures;
    broadcast use vstd::multiset::group_multiset_axioms;

    reveal(Seq::filter);
    if s.len() == 0 {
        assert forall|x: Friend| s.to_multiset().count(x) == 0 by {
            if s.to_multiset().count(x) > 0 {
                assert(s.contains(x));
            }
        }
    } else {
        lemma_filter_split_multiset(s.drop_last());
        lemma_filter_push(s.drop_last(), s.last(), online_pred());
        lemma_filter_push(s.drop_last(), s.last(), offline_pred());
        assert(s =~= s.drop_last().push(s.last()));
    }
}

/// Law: both listings of a partition are in ascending email order.
pub proof fn lemma_partition_sorted(s: Seq<Friend>)
    ensures
        sorted_by_email(online_part(s)),
        sorted_by_email(offline_part(s)),
{
    lemma_sort_by_email_sorted(s.filter(online_pred()));
    lemma_sort_by_email_sorted(s.filter(offline_pred()));
}

/// Law: partitioning is stable. For any email — duplicates included — the
/// entries carrying it come out of each listing exactly as they stand in
/// the roster, in the same order.
pub proof fn lemma_partition_stable(s: Seq<Friend>, e: Seq<char>)
    ensures
        online_part(s).filter(has_email(e)) == s.filter(online_pred()).filter(has_email(e)),
        offline_part(s).filter(has_email(e)) == s.filter(offline_pred()).filter(has_email(e)),
{
    lemma_sort_by_email_stable(s.filter(online_pred()), e);
    lemma_sort_by_email_stable(s.filter(offline_pred()), e);
}

} // verus!

