//! Cookies that are sent along with a probe, and the cookie that a recorded probe
//! shows.

use crate::account::cookie_lock::RoutingCookie;
use crate::text::{
    chars_of, has_control, is_control, optional_text, same_text,
};
use vstd::prelude::*;

verus! {

/// The time that `chrono::DateTime::parse_from_rfc3339` reads from a text, in whole
/// seconds since 1970, if it reads one.
pub uninterp spec fn rfc3339_seconds(text: Seq<char>) -> Option<i64>;

/// `chrono::DateTime::parse_from_rfc3339` and `timestamp` of what it reads. The
/// result depends on the text alone.
#[verifier::external_body]
fn seconds_of_rfc3339(text: &str) -> (r: Option<i64>)
    ensures
        r == rfc3339_seconds(text@),
{
    chrono::DateTime::parse_from_rfc3339(text).ok().map(|time| time.timestamp())
}

/// A cookie out of an account's credentials.
pub struct StoredCookie {
    pub name: String,
    pub value: String,
    pub expires_at: Option<String>,
}

pub struct CookieView {
    pub name: Seq<char>,
    pub value: Seq<char>,
    pub expires_at: Option<Seq<char>>,
}

impl View for StoredCookie {
    type V = CookieView;

    open spec fn view(&self) -> CookieView {
        CookieView {
            name: self.name@,
            value: self.value@,
            expires_at: optional_text(self.expires_at),
        }
    }
}

/// A cookie that can stand in a request header and does not choose a host.
pub open spec fn is_replayable(cookie: CookieView) -> bool {
    &&& cookie.name != "__oailb"@
    &&& cookie.name != "__oai_lb"@
    &&& cookie.name.len() > 0
    &&& cookie.value.len() > 0
    &&& !cookie.value.contains(';')
    &&& forall|i: int| 0 <= i < cookie.value.len() ==> !is_control(#[trigger] cookie.value[i])
    &&& forall|i: int| 0 <= i < cookie.name.len() ==> !is_control(#[trigger] cookie.name[i])
}

/// An expiry that can be read and lies in the past. One that cannot be read does
/// not count.
pub open spec fn is_past(expiry: Option<i64>, now: int) -> bool {
    expiry is Some && expiry->0 < now
}

pub open spec fn expiry_of(cookie: CookieView) -> Option<i64> {
    match cookie.expires_at {
        Some(text) => rfc3339_seconds(text),
        None => None,
    }
}

pub open spec fn replayed(cookies: Seq<CookieView>, now: int) -> Seq<(Seq<char>, Seq<char>)>
    decreases cookies.len(),
{
    if cookies.len() == 0 {
        Seq::empty()
    } else {
        let before = replayed(cookies.drop_last(), now);
        let cookie = cookies.last();
        if is_replayable(cookie) && !is_past(expiry_of(cookie), now) {
            before.push((cookie.name, cookie.value))
        } else {
            before
        }
    }
}

pub open spec fn pair_views(pairs: Seq<(String, String)>) -> Seq<(Seq<char>, Seq<char>)> {
    pairs.map_values(|pair: (String, String)| (pair.0@, pair.1@))
}

pub open spec fn cookie_views(cookies: Seq<StoredCookie>) -> Seq<CookieView> {
    cookies.map_values(|cookie: StoredCookie| cookie@)
}

fn has_semicolon(s: &str) -> (r: bool)
    ensures
        r == s@.contains(';'),
{
    let chars = chars_of(s);
    let mut i: usize = 0;
    while i < chars.len()
        invariant
            i <= chars@.len(),
            chars@ == s@,
            forall|j: int| 0 <= j < i ==> chars@[j] != ';',
        decreases chars@.len() - i,
    {
        if chars[i] == ';' {
            assert(s@[i as int] == ';');
            return true;
        }
        i += 1;
    }
    false
}

/// A cookie with its expiry, as it was read, is sent along.
pub fn keeps_cookie(cookie: &StoredCookie, expiry: Option<i64>, now: i64) -> (r: bool)
    ensures
        r == (is_replayable(cookie@) && !is_past(expiry, now as int)),
{
    let name = cookie.name.as_str();
    let value = cookie.value.as_str();
    if same_text(name, "__oailb") || same_text(name, "__oai_lb") || name.is_empty()
        || value.is_empty() || has_semicolon(value) || has_control(value) || has_control(name) {
        return false;
    }
    match expiry {
        Some(time) => time >= now,
        None => true,
    }
}

/// The cookies of an account that go along with a request, in their order. `now`
/// is in seconds.
pub fn account_replay_cookies(cookies: &Vec<StoredCookie>, now: i64) -> (r: Vec<(String, String)>)
    ensures
        pair_views(r@) == replayed(cookie_views(cookies@), now as int),
{
    let ghost all = cookie_views(cookies@);
    let mut r: Vec<(String, String)> = Vec::new();
    let mut i: usize = 0;
    proof {
        assert(all.take(0) =~= Seq::empty());
        assert(pair_views(r@) =~= Seq::empty());
    }
    while i < cookies.len()
        invariant
            i <= cookies@.len(),
            all == cookie_views(cookies@),
            pair_views(r@) == replayed(all.take(i as int), now as int),
        decreases cookies@.len() - i,
    {
        let ghost before = pair_views(r@);
        let cookie = &cookies[i];
        proof {
            assert(all.take(i + 1).drop_last() =~= all.take(i as int));
            assert(all.take(i + 1).last() == cookie@);
        }
        let expiry = match &cookie.expires_at {
            Some(text) => seconds_of_rfc3339(text.as_str()),
            None => None,
        };
        if keeps_cookie(cookie, expiry, now) {
            r.push((cookie.name.clone(), cookie.value.clone()));
            assert(pair_views(r@) =~= before.push((cookie@.name, cookie@.value)));
        }
        i += 1;
    }
    proof {
        assert(all.take(cookies@.len() as int) =~= all);
    }
    r
}

/// What a recorded probe holds of its routing cookie.
pub struct RecordedCookie {
    pub name: Option<String>,
    pub value: Option<String>,
    pub pod: Option<String>,
    pub origin: Option<String>,
    pub issued_at: Option<i64>,
    pub expires_at: Option<i64>,
    pub reported_model: Option<String>,
}

pub open spec fn is_filled(text: Option<String>) -> bool {
    text is Some && text->0@.len() > 0
}

pub open spec fn text_or_empty(text: Option<String>) -> Seq<char> {
    match text {
        Some(text) => text@,
        None => Seq::empty(),
    }
}

fn or_empty(text: Option<String>) -> (r: String)
    ensures
        r@ == text_or_empty(text),
{
    match text {
        Some(text) => text,
        None => {
            let none = String::new();
            assert(none@ =~= Seq::empty());
            none
        },
    }
}

/// The cookie of a recorded probe. A record without the cookie's text has none.
pub fn recorded_routing_cookie(record: RecordedCookie) -> (r: Option<RoutingCookie>)
    ensures
        r is Some <==> is_filled(record.name) && is_filled(record.value) && is_filled(record.pod),
        r matches Some(cookie) ==> {
            &&& cookie.name@ == record.name->0@
            &&& cookie.value@ == record.value->0@
            &&& cookie.pod@ == record.pod->0@
            &&& cookie.origin@ == text_or_empty(record.origin)
            &&& cookie.reported_model@ == text_or_empty(record.reported_model)
            &&& cookie.issued_at == (match record.issued_at {
                Some(time) => time,
                None => 0,
            })
            &&& cookie.expires_at == (match record.expires_at {
                Some(time) => time,
                None => 0,
            })
            &&& cookie.observed_at == 0
        },
{
    if let (Some(name), Some(value), Some(pod)) = (record.name, record.value, record.pod) {
        if name.as_str().is_empty() || value.as_str().is_empty() || pod.as_str().is_empty() {
            return None;
        }
        Some(
            RoutingCookie {
                origin: or_empty(record.origin),
                pod,
                name,
                value,
                issued_at: match record.issued_at {
                    Some(time) => time,
                    None => 0,
                },
                expires_at: match record.expires_at {
                    Some(time) => time,
                    None => 0,
                },
                observed_at: 0,
                reported_model: or_empty(record.reported_model),
            },
        )
    } else {
        None
    }
}

} // verus!
