//! The data model: the four-valued availability, the single user's profile,
//! and a roster entry. Text read from outside is decoded into
//! [`Availability`] with `Offline` as the fallback for unrecognized input.

use vstd::prelude::*;

use crate::order::str_eq;

verus! {

/// One of the four presence states. Only `Offline` is treated specially
/// by roster partitioning; `Online`, `Away` and `Busy` are grouped together.
#[derive(Clone, Copy, Debug, PartialEq, Eq, Structural)]
pub enum Availability {
    Online,
    Away,
    Busy,
    Offline,
}

/// The availability named by the text `s`. Every text other than the four
/// recognized names reads as `Offline`: a lossy-safe default, not an error.
pub open spec fn decode_availability(s: Seq<char>) -> Availability {
    if s == "Online"@ {
        Availability::Online
    } else if s == "Away"@ {
        Availability::Away
    } else if s == "Busy"@ {
        Availability::Busy
    } else {
        Availability::Offline
    }
}

/// The textual name of an availability, as it stands in the bootstrap
/// documents.
pub open spec fn availability_text(a: Availability) -> Seq<char> {
    match a {
        Availability::Online => "Online"@,
        Availability::Away => "Away"@,
        Availability::Busy => "Busy"@,
        Availability::Offline => "Offline"@,
    }
}

/// The icon shown beside a name in the friend list.
pub open spec fn availability_icon(a: Availability) -> Seq<char> {
    match a {
        Availability::Online => "👤"@,
        Availability::Away => "⏳"@,
        Availability::Busy => "⛔"@,
        Availability::Offline => "📴"@,
    }
}

impl Availability {
    /// Reads an availability from its textual name, `Offline` on anything
    /// unrecognized.
    pub fn decode(s: &str) -> (r: Availability)
        ensures
            r == decode_availability(s@),
    {
        if str_eq(s, "Online") {
            Availability::Online
        } else if str_eq(s, "Away") {
            Availability::Away
        } else if str_eq(s, "Busy") {
            Availability::Busy
        } else {
            Availability::Offline
        }
    }

    /// The textual name, the inverse of [`Availability::decode`] on
    /// recognized input.
    pub fn to_text(&self) -> (r: String)
        ensures
            r@ == availability_text(*self),
    {
        match self {
            Availability::Online => "Online".to_owned(),
            Availability::Away => "Away".to_owned(),
            Availability::Busy => "Busy".to_owned(),
            Availability::Offline => "Offline".to_owned(),
        }
    }

    /// The icon shown beside a name in the friend list.
    pub fn to_icon(&self) -> (r: String)
        ensures
            r@ == availability_icon(*self),
    {
        match self {
            Availability::Online => "👤".to_owned(),
            Availability::Away => "⏳".to_owned(),
            Availability::Busy => "⛔".to_owned(),
            Availability::Offline => "📴".to_owned(),
        }
    }
}

/// Law: decoding the textual name of an availability gives that
/// availability back; the fallback never reinterprets a recognized name.
pub proof fn lemma_text_decode_roundtrip(a: Availability)
    ensures
        decode_availability(availability_text(a)) == a,
{
    reveal_strlit("Online");
    reveal_strlit("Away");
    reveal_strlit("Busy");
    reveal_strlit("Offline");
    assert("Online"@.len() == 6);
    assert("Away"@.len() == 4);
    assert("Busy"@.len() == 4);
    assert("Offline"@.len() == 7);
    assert("Away"@[0] == 'A' && "Busy"@[0] == 'B');
}

/// The single local user's record: a mutable display name, the immutable
/// identity email, a free-text status line, and an availability.
#[derive(Clone, Debug, PartialEq)]
pub struct User {
    pub name: String,
    pub email: String,
    pub status: String,
    pub availability: Availability,
}

impl User {
    /// An independent copy, equal to `self` in every field.
    pub fn duplicate(&self) -> (r: User)
        ensures
            r == *self,
    {
        User {
            name: self.name.clone(),
            email: self.email.clone(),
            status: self.status.clone(),
            availability: self.availability,
        }
    }
}

/// One roster entry: a contact's name, identity email, status line and
/// availability.
#[derive(Clone, Debug, PartialEq)]
pub struct Friend {
    pub name: String,
    pub email: String,
    pub status: String,
    pub availability: Availability,
}

/// How a partial update relates an entry before and after: each field given
/// in the patch overwrites, each field absent stays; the email never moves.
pub open spec fn is_patched(
    before: Friend,
    name: Option<String>,
    status: Option<String>,
    availability: Option<Availability>,
    after: Friend,
) -> bool {
    &&& after.email == before.email
    &&& match name {
        Some(n) => after.name == n,
        None => after.name == before.name,
    }
    &&& match status {
        Some(s) => after.status == s,
        None => after.status == before.status,
    }
    &&& match availability {
        Some(a) => after.availability == a,
        None => after.availability == before.availability,
    }
}

impl Friend {
    /// Builds a new roster entry. The status defaults to the empty string
    /// and the availability to `Online` when not supplied.
    pub fn new(
        name: String,
        email: String,
        status: Option<String>,
        availability: Option<Availability>,
    ) -> (r: Friend)
        ensures
            r.name == name,
            r.email == email,
            match status {
                Some(s) => r.status == s,
                None => r.status@ == Seq::<char>::empty(),
            },
            match availability {
                Some(a) => r.availability == a,
                None => r.availability == Availability::Online,
            },
    {
        Friend {
            name,
            email,
            status: match status {
                Some(s) => s,
                None => String::new(),
            },
            availability: match availability {
                Some(a) => a,
                None => Availability::Online,
            },
        }
    }

    /// Applies a partial update: each supplied field overwrites, each
    /// absent field is left unchanged.
    pub fn update(
        &mut self,
        name: Option<String>,
        status: Option<String>,
        availability: Option<Availability>,
    )
        ensures
            is_patched(*old(self), name, status, availability, *final(self)),
    {
        if let Some(n) = name {
            self.name = n;
        }
        if let Some(s) = status {
            self.status = s;
        }
        if let Some(a) = availability {
            self.availability = a;
        }
    }

    /// An independent copy, equal to `self` in every field.
    pub fn duplicate(&self) -> (r: Friend)
        ensures
            r == *self,
    {
        Friend {
            name: self.name.clone(),
            email: self.email.clone(),
            status: self.status.clone(),
            availability: self.availability,
        }
    }
}

/// The argument record the UI sends with a rename request.
pub struct UpdateUsernameArgs<'a> {
    pub name: &'a str,
}

} // verus!
