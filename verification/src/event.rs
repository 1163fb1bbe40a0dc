//! The normalized analytics event consumed by the transformer, and the
//! specification functions that describe how the transformer reads it.

use vstd::prelude::*;
use crate::hashing::hex_of;
use crate::hashing::sha256_of;

verus! {

/// Explicit consent carried by an event. An event that carries no consent at
/// all holds `None` at the event level, which is treated as permissive.
#[derive(Debug, Clone, Copy, PartialEq, Eq, Structural)]
pub enum Consent {
    Granted,
    Denied,
}

/// The page context of an event: the page URL and its query string.
#[derive(Debug, Clone)]
pub struct PageContext {
    pub url: String,
    pub search: String,
}

/// The client context of an event: operational, non-identity fields.
#[derive(Debug, Clone)]
pub struct ClientContext {
    pub ip: String,
    pub user_agent: String,
}

/// The user context of an event: the user identifier and the context-level
/// user-property mapping, a list of key/value pairs where a later entry for a
/// key supersedes an earlier one.
#[derive(Debug, Clone)]
pub struct UserContext {
    pub user_id: String,
    pub properties: Vec<(String, String)>,
}

/// The full context of an event.
#[derive(Debug, Clone)]
pub struct EventContext {
    pub page: PageContext,
    pub client: ClientContext,
    pub user: UserContext,
}

/// The payload-specific data variant of an event. A `User` variant carries
/// its own property mapping, which fully replaces the context-level one.
#[derive(Debug, Clone)]
pub enum EventData {
    User(Vec<(String, String)>),
    Other,
}

/// A normalized analytics event, created upstream and consumed read-only.
#[derive(Debug, Clone)]
pub struct Event {
    pub uuid: String,
    pub timestamp: i64,
    pub context: EventContext,
    pub data: EventData,
    pub consent: Option<Consent>,
}

/// The value a key/value list maps a key to: the value of the last entry with
/// that key, or `None` when no entry has it.
pub open spec fn last_value(props: Seq<(Seq<char>, Seq<char>)>, key: Seq<char>) -> Option<
    Seq<char>,
>
    decreases props.len(),
{
    if props.len() == 0 {
        None
    } else if props.last().0 == key {
        Some(props.last().1)
    } else {
        last_value(props.drop_last(), key)
    }
}

/// The value a key maps to, hashed as the identity record stores it.
pub open spec fn hashed_field(props: Seq<(Seq<char>, Seq<char>)>, key: Seq<char>) -> Option<
    Seq<char>,
> {
    match last_value(props, key) {
        Some(v) => Some(hex_of(sha256_of(v))),
        None => None,
    }
}

/// The effective user-property mapping of an event: the payload-specific
/// mapping when the data variant is `User`, else the context-level one.
pub open spec fn effective_properties(event: &Event) -> Seq<(Seq<char>, Seq<char>)> {
    match event.data {
        EventData::User(p) => p.deep_view(),
        EventData::Other => event.context.user.properties.deep_view(),
    }
}

/// Whether an event's consent state blocks processing: an explicit state that
/// is not `Granted`. An absent state is permissive.
pub open spec fn consent_blocked(consent: Option<Consent>) -> bool {
    consent matches Some(c) && c != Consent::Granted
}

/// Whether a property key is one of the ten recognized identity field names.
pub open spec fn recognized_key(k: Seq<char>) -> bool {
    ||| k == "email"@
    ||| k == "phone_number"@
    ||| k == "first_name"@
    ||| k == "last_name"@
    ||| k == "gender"@
    ||| k == "date_of_birth"@
    ||| k == "city"@
    ||| k == "state"@
    ||| k == "zip_code"@
    ||| k == "country"@
}

/// Whether the transformer accepts an event: consent does not block it and
/// the effective mapping supplies an email value.
pub open spec fn build_accepts(consent: Option<Consent>, props: Seq<(Seq<char>, Seq<char>)>) -> bool {
    !consent_blocked(consent) && last_value(props, "email"@) is Some
}

/// Appending an entry changes a key's value exactly when the entry carries
/// that key.
pub proof fn lemma_last_value_push(
    props: Seq<(Seq<char>, Seq<char>)>,
    entry: (Seq<char>, Seq<char>),
    key: Seq<char>,
)
    ensures
        last_value(props.push(entry), key) == (if entry.0 == key {
            Some(entry.1)
        } else {
            last_value(props, key)
        }),
{
    assert(props.push(entry).drop_last() =~= props);
    assert(props.push(entry).last() == entry);
}

/// Removing an entry leaves every other key's value unchanged.
pub proof fn lemma_last_value_remove(
    props: Seq<(Seq<char>, Seq<char>)>,
    i: int,
    key: Seq<char>,
)
    requires
        0 <= i < props.len(),
        props[i].0 != key,
    ensures
        last_value(props.remove(i), key) == last_value(props, key),
    decreases props.len(),
{
    if i == props.len() - 1 {
        assert(props.remove(i) =~= props.drop_last());
    } else {
        assert(props.remove(i).drop_last() =~= props.drop_last().remove(i));
        assert(props.remove(i).last() == props.last());
        lemma_last_value_remove(props.drop_last(), i, key);
    }
}

/// An entry whose key is not one of the ten recognized identity field names
/// has no effect: every recognized field reads the same with or without it,
/// and acceptance is unchanged.
pub proof fn lemma_unrecognized_key_irrelevant(
    props: Seq<(Seq<char>, Seq<char>)>,
    i: int,
    consent: Option<Consent>,
)
    requires
        0 <= i < props.len(),
        !recognized_key(props[i].0),
    ensures
        forall|k: Seq<char>|
            recognized_key(k) ==> hashed_field(props.remove(i), k) == hashed_field(props, k),
        build_accepts(consent, props.remove(i)) == build_accepts(consent, props),
{
    assert forall|k: Seq<char>|
        recognized_key(k) implies hashed_field(props.remove(i), k) == hashed_field(props, k) by {
        lemma_last_value_remove(props, i, k);
    }
    assert(recognized_key("email"@));
    lemma_last_value_remove(props, i, "email"@);
}

} // verus!
