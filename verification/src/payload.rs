//! The vendor-facing records: the identity record, the outbound event record
//! and its builder, and the payload container with its settings-driven
//! constructor.

use vstd::prelude::*;
use vstd::string::StrSliceExecFns;
use vstd::string::StringExecFns;
use crate::event::Consent;
use crate::event::Event;
use crate::event::EventData;
use crate::event::build_accepts;
use crate::event::consent_blocked;
use crate::event::effective_properties;
use crate::event::hashed_field;
use crate::event::last_value;
use crate::event::lemma_last_value_push;
use crate::hashing::hash_value;
use crate::hashing::hex_of;
use crate::hashing::sha256_of;
use crate::strings::lower_of;
use crate::strings::lowercase;
use crate::strings::str_eq;
use crate::value::CoercedValue;

verus! {

/// Why the transformer rejected an event.
#[derive(Debug, Clone, Copy, PartialEq, Eq, Structural)]
pub enum BuildError {
    /// The event carries an explicit consent state that is not granted.
    ConsentNotGranted,
    /// The effective user-property mapping is empty.
    EmptyUserProperties,
    /// The effective user-property mapping supplies no email value.
    MissingEmail,
}

/// Why the payload container could not be constructed from the settings.
#[derive(Debug, Clone, Copy, PartialEq, Eq, Structural)]
pub enum ConfigError {
    /// The settings supply no access credential.
    MissingAccessToken,
    /// The settings supply no advertising-account identifier.
    MissingAdAccountId,
}

/// The vendor identity record: a fixed set of optional fields. Every present
/// hashed field holds the hexadecimal SHA-256 digest of the raw input; the
/// client address, user agent and click identifier pass through unhashed.
#[derive(Debug, Clone, PartialEq, Eq)]
pub struct UserData {
    pub email: Option<String>,
    pub phone_number: Option<String>,
    pub first_name: Option<String>,
    pub last_name: Option<String>,
    pub date_of_birth: Option<String>,
    pub gender: Option<String>,
    pub city: Option<String>,
    pub state: Option<String>,
    pub zip_code: Option<String>,
    pub country: Option<String>,
    pub external_id: Option<String>,
    pub client_ip_address: Option<String>,
    pub client_user_agent: Option<String>,
    pub click_id: Option<String>,
}

impl UserData {
    /// An identity record with every field unset.
    pub fn empty() -> (u: UserData)
        ensures
            u.email is None,
            u.phone_number is None,
            u.first_name is None,
            u.last_name is None,
            u.date_of_birth is None,
            u.gender is None,
            u.city is None,
            u.state is None,
            u.zip_code is None,
            u.country is None,
            u.external_id is None,
            u.client_ip_address is None,
            u.client_user_agent is None,
            u.click_id is None,
    {
        UserData {
            email: None,
            phone_number: None,
            first_name: None,
            last_name: None,
            date_of_birth: None,
            gender: None,
            city: None,
            state: None,
            zip_code: None,
            country: None,
            external_id: None,
            client_ip_address: None,
            client_user_agent: None,
            click_id: None,
        }
    }
}

/// What the hashed and pass-through identity fields must hold after a
/// successful build, given the event and its effective property mapping.
pub open spec fn identity_ok(
    event: &Event,
    props: Seq<(Seq<char>, Seq<char>)>,
    u: UserData,
) -> bool {
    &&& u.client_ip_address.deep_view() == Some(event.context.client.ip@)
    &&& u.client_user_agent.deep_view() == Some(event.context.client.user_agent@)
    &&& u.external_id.deep_view() == (if event.context.user.user_id@.len() == 0 {
        Option::<Seq<char>>::None
    } else {
        Some(hex_of(sha256_of(event.context.user.user_id@)))
    })
    &&& u.click_id is None
    &&& u.email.deep_view() == hashed_field(props, "email"@)
    &&& u.phone_number.deep_view() == hashed_field(props, "phone_number"@)
    &&& u.first_name.deep_view() == hashed_field(props, "first_name"@)
    &&& u.last_name.deep_view() == hashed_field(props, "last_name"@)
    &&& u.gender.deep_view() == hashed_field(props, "gender"@)
    &&& u.date_of_birth.deep_view() == hashed_field(props, "date_of_birth"@)
    &&& u.city.deep_view() == hashed_field(props, "city"@)
    &&& u.state.deep_view() == hashed_field(props, "state"@)
    &&& u.zip_code.deep_view() == hashed_field(props, "zip_code"@)
    &&& u.country.deep_view() == hashed_field(props, "country"@)
}

/// The outbound event record sent to the vendor.
#[derive(Debug, Clone, PartialEq, Eq)]
pub struct PinterestEvent {
    pub event_name: String,
    pub event_time: i64,
    pub user_data: UserData,
    pub custom_data: Option<Vec<(String, CoercedValue)>>,
    pub event_source_url: Option<String>,
    pub event_id: String,
    pub action_source: String,
}

/// What a successfully built record must hold, given the event, the chosen
/// event name, and the effective property mapping.
pub open spec fn record_ok(
    event: &Event,
    name: Seq<char>,
    props: Seq<(Seq<char>, Seq<char>)>,
    r: PinterestEvent,
) -> bool {
    &&& r.event_name@ == name
    &&& r.event_time == event.timestamp
    &&& r.event_id@ == event.uuid@
    &&& r.action_source@ == "web"@
    &&& (r.custom_data matches Some(c) && c@.len() == 0)
    &&& r.event_source_url.deep_view() == (if event.context.page.url@.len() == 0 {
        Option::<Seq<char>>::None
    } else {
        Some(event.context.page.url@ + event.context.page.search@)
    })
    &&& identity_ok(event, props, r.user_data)
}

impl PinterestEvent {
    /// Transforms a normalized event into an outbound record, or rejects it.
    ///
    /// Consent is checked first, then the emptiness of the effective
    /// user-property mapping, then — after every recognized property has been
    /// hashed into the identity record — the presence of an email value.
    pub fn new(event: &Event, event_name: &str) -> (r: Result<PinterestEvent, BuildError>)
        ensures
            ({
                let props = effective_properties(event);
                &&& (r is Ok <==> build_accepts(event.consent, props))
                &&& ((r matches Err(e) && e == BuildError::ConsentNotGranted) <==> consent_blocked(
                    event.consent,
                ))
                &&& ((r matches Err(e) && e == BuildError::EmptyUserProperties) <==> (
                !consent_blocked(event.consent) && props.len() == 0))
                &&& ((r matches Err(e) && e == BuildError::MissingEmail) <==> (!consent_blocked(
                    event.consent,
                ) && props.len() > 0 && last_value(props, "email"@) is None))
                &&& (r matches Ok(rec) ==> record_ok(event, event_name@, props, rec))
            }),
    {
        let mut record = PinterestEvent {
            event_name: String::from_str(event_name),
            event_time: event.timestamp,
            event_id: event.uuid.clone(),
            event_source_url: None,
            user_data: UserData::empty(),
            custom_data: Some(Vec::new()),
            action_source: String::from_str("web"),
        };

        if event.context.page.url.unicode_len() > 0 {
            let location = event.context.page.url.clone().concat(
                event.context.page.search.as_str(),
            );
            record.event_source_url = Some(location);
        }
        let mut user_data = UserData::empty();
        user_data.client_ip_address = Some(event.context.client.ip.clone());
        user_data.client_user_agent = Some(event.context.client.user_agent.clone());
        if event.context.user.user_id.unicode_len() > 0 {
            user_data.external_id = Some(hash_value(event.context.user.user_id.as_str()));
        }
        let props: &Vec<(String, String)> = match &event.data {
            EventData::User(p) => p,
            EventData::Other => &event.context.user.properties,
        };
        let ghost pv = props.deep_view();
        proof {
            assert(pv == effective_properties(event));
        }
        match event.consent {
            Some(c) => {
                if c != Consent::Granted {
                    return Err(BuildError::ConsentNotGranted);
                }
            },
            None => {},
        }
        if props.len() == 0 {
            return Err(BuildError::EmptyUserProperties);
        }
        let n = props.len();
        let mut idx: usize = 0;
        while idx < n
            invariant
                0 <= idx <= n,
                n == props@.len(),
                pv == props.deep_view(),
                user_data.email.deep_view() == hashed_field(pv.take(idx as int), "email"@),
                user_data.phone_number.deep_view() == hashed_field(
                    pv.take(idx as int),
                    "phone_number"@,
                ),
                user_data.first_name.deep_view() == hashed_field(
                    pv.take(idx as int),
                    "first_name"@,
                ),
                user_data.last_name.deep_view() == hashed_field(pv.take(idx as int), "last_name"@),
                user_data.gender.deep_view() == hashed_field(pv.take(idx as int), "gender"@),
                user_data.date_of_birth.deep_view() == hashed_field(
                    pv.take(idx as int),
                    "date_of_birth"@,
                ),
                user_data.city.deep_view() == hashed_field(pv.take(idx as int), "city"@),
                user_data.state.deep_view() == hashed_field(pv.take(idx as int), "state"@),
                user_data.zip_code.deep_view() == hashed_field(pv.take(idx as int), "zip_code"@),
                user_data.country.deep_view() == hashed_field(pv.take(idx as int), "country"@),
                user_data.client_ip_address.deep_view() == Some(event.context.client.ip@),
                user_data.client_user_agent.deep_view() == Some(event.context.client.user_agent@),
                user_data.external_id.deep_view() == (if event.context.user.user_id@.len() == 0 {
                    Option::<Seq<char>>::None
                } else {
                    Some(hex_of(sha256_of(event.context.user.user_id@)))
                }),
                user_data.click_id is None,
            decreases n - idx,
        {
            let pair: &(String, String) = &props[idx];
            let key: &str = pair.0.as_str();
            let val: &str = pair.1.as_str();
            proof {
                // The invariants on the fields this entry does not set need
                // the ten key literals to be distinct from each other; their
                // views stay opaque unless revealed and pinned down here.
                reveal_strlit("email");
                reveal_strlit("phone_number");
                reveal_strlit("first_name");
                reveal_strlit("last_name");
                reveal_strlit("gender");
                reveal_strlit("date_of_birth");
                reveal_strlit("city");
                reveal_strlit("state");
                reveal_strlit("zip_code");
                reveal_strlit("country");
                assert("email"@.len() == 5);
                assert("phone_number"@.len() == 12);
                assert("first_name"@.len() == 10);
                assert("last_name"@.len() == 9);
                assert("gender"@.len() == 6);
                assert("date_of_birth"@.len() == 13);
                assert("city"@.len() == 4);
                assert("state"@.len() == 5);
                assert("zip_code"@.len() == 8);
                assert("country"@.len() == 7);
                assert("email"@[0] == 'e' && "state"@[0] == 's');
                assert(pv[idx as int] == (pair.0@, pair.1@));
                assert(pv.take(idx + 1int) =~= pv.take(idx as int).push(pv[idx as int]));
                lemma_last_value_push(pv.take(idx as int), pv[idx as int], "email"@);
                lemma_last_value_push(pv.take(idx as int), pv[idx as int], "phone_number"@);
                lemma_last_value_push(pv.take(idx as int), pv[idx as int], "first_name"@);
                lemma_last_value_push(pv.take(idx as int), pv[idx as int], "last_name"@);
                lemma_last_value_push(pv.take(idx as int), pv[idx as int], "gender"@);
                lemma_last_value_push(pv.take(idx as int), pv[idx as int], "date_of_birth"@);
                lemma_last_value_push(pv.take(idx as int), pv[idx as int], "city"@);
                lemma_last_value_push(pv.take(idx as int), pv[idx as int], "state"@);
                lemma_last_value_push(pv.take(idx as int), pv[idx as int], "zip_code"@);
                lemma_last_value_push(pv.take(idx as int), pv[idx as int], "country"@);
            }
            if str_eq(key, "email") {
                user_data.email = Some(hash_value(val));
            } else if str_eq(key, "phone_number") {
                user_data.phone_number = Some(hash_value(val));
            } else if str_eq(key, "first_name") {
                user_data.first_name = Some(hash_value(val));
            } else if str_eq(key, "last_name") {
                user_data.last_name = Some(hash_value(val));
            } else if str_eq(key, "gender") {
                user_data.gender = Some(hash_value(val));
            } else if str_eq(key, "date_of_birth") {
                user_data.date_of_birth = Some(hash_value(val));
            } else if str_eq(key, "city") {
                user_data.city = Some(hash_value(val));
            } else if str_eq(key, "state") {
                user_data.state = Some(hash_value(val));
            } else if str_eq(key, "zip_code") {
                user_data.zip_code = Some(hash_value(val));
            } else if str_eq(key, "country") {
                user_data.country = Some(hash_value(val));
            }
            idx += 1;
        }
        proof {
            assert(pv.take(n as int) =~= pv);
        }
        if user_data.email.is_none() {
            return Err(BuildError::MissingEmail);
        }
        record.user_data = user_data;
        Ok(record)
    }
}

/// The payload container: the ordered records to send, plus the transport
/// metadata read once from the settings and never serialized.
#[derive(Debug, Clone, PartialEq, Eq)]
pub struct PinterestPayload {
    pub data: Vec<PinterestEvent>,
    pub ad_account_id: String,
    pub access_token: String,
    pub is_test: bool,
}

/// Looks a key up in a settings list; a later entry for a key supersedes an
/// earlier one.
fn dict_get<'a>(dict: &'a Vec<(String, String)>, key: &str) -> (r: Option<&'a String>)
    ensures
        match r {
            Some(v) => last_value(dict.deep_view(), key@) == Some(v@),
            None => last_value(dict.deep_view(), key@) is None,
        },
{
    let ghost dv = dict.deep_view();
    let mut j = dict.len();
    proof {
        assert(dv.take(j as int) =~= dv);
    }
    while j > 0
        invariant
            0 <= j <= dict@.len(),
            dv == dict.deep_view(),
            last_value(dv, key@) == last_value(dv.take(j as int), key@),
        decreases j,
    {
        j = j - 1;
        let pair: &(String, String) = &dict[j];
        proof {
            assert(dv[j as int] == (pair.0@, pair.1@));
            assert(dv.take(j + 1int) =~= dv.take(j as int).push(dv[j as int]));
            lemma_last_value_push(dv.take(j as int), dv[j as int], key@);
        }
        if str_eq(pair.0.as_str(), key) {
            return Some(&dict[j].1);
        }
    }
    proof {
        assert(dv.take(0) =~= Seq::<(Seq<char>, Seq<char>)>::empty());
    }
    None
}

impl PinterestPayload {
    /// Constructs an empty payload container from a settings list. The access
    /// credential and the account identifier are required; the test-mode flag
    /// is the optional `is_test` entry, read case-insensitively as the word
    /// `true`.
    pub fn new(settings: &Vec<(String, String)>) -> (r: Result<PinterestPayload, ConfigError>)
        ensures
            ({
                let d = settings.deep_view();
                match r {
                    Ok(p) => {
                        &&& last_value(d, "pinterest_access_token"@) == Some(p.access_token@)
                        &&& last_value(d, "pinterest_ad_account_id"@) == Some(p.ad_account_id@)
                        &&& p.is_test == (last_value(d, "is_test"@) matches Some(v) && lower_of(v)
                            == "true"@)
                        &&& p.data@.len() == 0
                    },
                    Err(e) => {
                        &&& (e == ConfigError::MissingAccessToken <==> last_value(
                            d,
                            "pinterest_access_token"@,
                        ) is None)
                        &&& (e == ConfigError::MissingAdAccountId <==> (last_value(
                            d,
                            "pinterest_access_token"@,
                        ) is Some && last_value(d, "pinterest_ad_account_id"@) is None))
                    },
                }
            }),
            r is Ok <==> (last_value(settings.deep_view(), "pinterest_access_token"@) is Some
                && last_value(settings.deep_view(), "pinterest_ad_account_id"@) is Some),
    {
        let access_token = match dict_get(settings, "pinterest_access_token") {
            Some(v) => v.clone(),
            None => {
                return Err(ConfigError::MissingAccessToken);
            },
        };
        let ad_account_id = match dict_get(settings, "pinterest_ad_account_id") {
            Some(v) => v.clone(),
            None => {
                return Err(ConfigError::MissingAdAccountId);
            },
        };
        let is_test = match dict_get(settings, "is_test") {
            Some(v) => {
                let low = lowercase(v.as_str());
                str_eq(low.as_str(), "true")
            },
            None => false,
        };
        Ok(
            PinterestPayload {
                data: Vec::new(),
                ad_account_id,
                access_token,
                is_test,
            },
        )
    }
}

} // verus!
