//! Routing cookies: how long they live, and what may be shared of them between
//! accounts. Cookies that authenticate an account are no routing cookies.

use crate::base64_text::{decode_url_safe_no_pad, url_safe_no_pad_bytes};
use crate::json::{
    exact_text_member, integer_member, parse_bytes, value_in_bytes, Json, JsonObject, Members, Tree,
};
use crate::text::{
    all_digits, byte_len, byte_length, chars_of, debug_quoted, ends_with, glue3, is_all_digits,
    is_alphanumeric, is_alphanumeric_char, quoted, same_ignoring_case, same_text,
    same_text_ignoring_case, signed_decimal, signed_decimal_text, split, split_on, starts_with,
    texts, without_prefix, without_suffix,
};
use vstd::prelude::*;
use vstd::string::*;

verus! {

pub const POD_PREFIX: &'static str = "chat.gateway.unified-";

pub const POD_SUFFIX: &'static str = ".api.openai.com";

/// A cookie that ties requests to one gateway of the upstream.
pub struct RoutingCookie {
    pub origin: String,
    pub pod: String,
    pub name: String,
    pub value: String,
    pub issued_at: i64,
    pub expires_at: i64,
    pub observed_at: i64,
    pub reported_model: String,
}

/// A gateway number: up to ten digits.
pub open spec fn is_gateway_number(number: Seq<char>) -> bool {
    0 < number.len() <= 10 && all_digits(number)
}

/// The number of the gateway that a host name names.
pub open spec fn gateway_of(pod: Seq<char>) -> Option<Seq<char>> {
    if starts_with(pod, POD_PREFIX@) {
        let rest = pod.skip(POD_PREFIX@.len() as int);
        if ends_with(rest, POD_SUFFIX@) {
            let number = rest.take(rest.len() - POD_SUFFIX@.len());
            if is_gateway_number(number) {
                Some(number)
            } else {
                None
            }
        } else {
            None
        }
    } else {
        None
    }
}

pub open spec fn gateway_or_empty(pod: Seq<char>) -> Seq<char> {
    match gateway_of(pod) {
        Some(number) => number,
        None => Seq::empty(),
    }
}

pub open spec fn is_token_char(c: char) -> bool {
    is_alphanumeric(c) || c == '-' || c == '_'
}

pub open spec fn is_token_part(part: Seq<char>) -> bool {
    part.len() > 0 && forall|i: int| 0 <= i < part.len() ==> is_token_char(#[trigger] part[i])
}

pub open spec fn is_cookie_name(name: Seq<char>) -> bool {
    name == "__oailb"@ || name == "__oai_lb"@
}

/// The JSON object that a part of a token holds.
pub open spec fn part_object(part: Seq<char>) -> Option<Members> {
    match url_safe_no_pad_bytes(part) {
        Some(bytes) => match value_in_bytes(bytes) {
            Some(Tree::Object(object)) => Some(object),
            _ => None,
        },
        None => None,
    }
}

/// What a token says of itself: its host, when it was issued and when it expires.
pub struct CookieClaims {
    pub pod: Seq<char>,
    pub issued_at: int,
    pub expires_at: int,
}

pub open spec fn header_is_signed(header: Members) -> bool {
    exact_text_member(header, "alg"@) == Some("ES256"@)
}

pub open spec fn claims_in(claims: Members) -> Option<CookieClaims> {
    match (
        exact_text_member(claims, "host"@),
        integer_member(claims, "iat"@),
        integer_member(claims, "exp"@),
    ) {
        (Some(pod), Some(issued_at), Some(expires_at)) => if gateway_of(pod) is Some {
            Some(CookieClaims { pod, issued_at, expires_at })
        } else {
            None
        },
        _ => None,
    }
}

/// The claims of a token of three parts whose header names the algorithm.
pub open spec fn token_claims(value: Seq<char>) -> Option<CookieClaims> {
    let parts = split(value, '.');
    if parts.len() == 3 && is_token_part(parts[0]) && is_token_part(parts[1]) && is_token_part(
        parts[2],
    ) {
        match (part_object(parts[0]), part_object(parts[1])) {
            (Some(header), Some(claims)) if header_is_signed(header) => claims_in(claims),
            _ => None,
        }
    } else {
        None
    }
}

/// The claims hold at this time: issued, and not yet expired.
pub open spec fn claims_hold(claims: CookieClaims, now: int) -> bool {
    &&& 0 < claims.issued_at <= now
    &&& now < claims.expires_at
}

/// The claims of a cookie that may be used for routing at this time.
pub open spec fn routing_claims(name: Seq<char>, value: Seq<char>, now: int) -> Option<
    CookieClaims,
> {
    if is_cookie_name(name) && byte_len(value) <= 4096 {
        match token_claims(value) {
            Some(claims) if claims_hold(claims, now) => Some(claims),
            _ => None,
        }
    } else {
        None
    }
}

fn is_token_part_text(part: &str) -> (r: bool)
    ensures
        r == is_token_part(part@),
{
    let chars = chars_of(part);
    let mut i: usize = 0;
    while i < chars.len()
        invariant
            i <= chars@.len(),
            chars@ == part@,
            forall|j: int| 0 <= j < i ==> is_token_char(#[trigger] part@[j]),
        decreases chars@.len() - i,
    {
        let c = chars[i];
        if !(is_alphanumeric_char(c) || c == '-' || c == '_') {
            assert(!is_token_char(part@[i as int]));
            return false;
        }
        i += 1;
    }
    chars.len() > 0
}

fn object_of_part(part: &str) -> (r: Option<JsonObject>)
    ensures
        match r {
            Some(object) => part_object(part@) == Some(object@),
            None => part_object(part@) is None,
        },
{
    let bytes = match decode_url_safe_no_pad(part) {
        Some(bytes) => bytes,
        None => {
            return None;
        },
    };
    match parse_bytes(&bytes) {
        Some(Json::Object(object)) => Some(object),
        _ => None,
    }
}

/// The claims of a cookie, as they were read.
pub struct Claims {
    pub pod: String,
    pub issued_at: i64,
    pub expires_at: i64,
}

pub open spec fn claims_view(claims: Claims) -> CookieClaims {
    CookieClaims {
        pod: claims.pod@,
        issued_at: claims.issued_at as int,
        expires_at: claims.expires_at as int,
    }
}

fn read_claims(claims: &JsonObject) -> (r: Option<Claims>)
    ensures
        match r {
            Some(found) => claims_in(claims@) == Some(claims_view(found)),
            None => claims_in(claims@) is None,
        },
{
    let pod = match claims.exact_text_at("host") {
        Some(pod) => pod,
        None => {
            return None;
        },
    };
    if RoutingCookie::gateway_id_from_pod(pod.as_str()).is_none() {
        return None;
    }
    let issued_at: i64 = match claims.integer_at("iat") {
        Some(time) => time,
        None => {
            return None;
        },
    };
    let expires_at: i64 = match claims.integer_at("exp") {
        Some(time) => time,
        None => {
            return None;
        },
    };
    Some(Claims { pod, issued_at, expires_at })
}

/// The claims of a token, by its decoded header and the object that was signed.
pub fn signed_claims(header: &JsonObject, claims: &JsonObject) -> (r: Option<Claims>)
    ensures
        match r {
            Some(found) => header_is_signed(header@) && claims_in(claims@) == Some(
                claims_view(found),
            ),
            None => !header_is_signed(header@) || claims_in(claims@) is None,
        },
{
    let signed = match header.exact_text_at("alg") {
        Some(algorithm) => same_text(algorithm.as_str(), "ES256"),
        None => false,
    };
    if signed {
        read_claims(claims)
    } else {
        None
    }
}

fn read_token(value: &str) -> (r: Option<Claims>)
    ensures
        match r {
            Some(found) => token_claims(value@) == Some(claims_view(found)),
            None => token_claims(value@) is None,
        },
{
    let parts = split_on(value, '.');
    proof {
        assert(parts@.len() == split(value@, '.').len());
        assert forall|i: int| 0 <= i < parts@.len() implies (#[trigger] parts@[i])@ == split(
            value@,
            '.',
        )[i] by {
            assert(texts(parts@)[i] == parts@[i]@);
        }
    }
    if parts.len() != 3 {
        return None;
    }
    if !is_token_part_text(parts[0].as_str()) || !is_token_part_text(parts[1].as_str())
        || !is_token_part_text(parts[2].as_str()) {
        return None;
    }
    let header = match object_of_part(parts[0].as_str()) {
        Some(header) => header,
        None => {
            return None;
        },
    };
    match object_of_part(parts[1].as_str()) {
        Some(claims) => signed_claims(&header, &claims),
        None => None,
    }
}

impl RoutingCookie {
    /// The number of the gateway that a host name names.
    pub fn gateway_id_from_pod(pod: &str) -> (r: Option<String>)
        ensures
            match r {
                Some(number) => gateway_of(pod@) == Some(number@),
                None => gateway_of(pod@) is None,
            },
    {
        let rest = match without_prefix(pod, POD_PREFIX) {
            Some(rest) => rest,
            None => {
                return None;
            },
        };
        let number = match without_suffix(rest.as_str(), POD_SUFFIX) {
            Some(number) => number,
            None => {
                return None;
            },
        };
        let length: usize = chars_of(number.as_str()).len();
        if length > 0 && length <= 10 && is_all_digits(number.as_str()) {
            Some(number)
        } else {
            None
        }
    }

    /// The number of this cookie's gateway; empty if its host names none.
    pub fn gateway_id(&self) -> (r: String)
        ensures
            r@ == gateway_or_empty(self.pod@),
    {
        match RoutingCookie::gateway_id_from_pod(self.pod.as_str()) {
            Some(number) => number,
            None => String::new(),
        }
    }

    /// Reads what the upstream's token says of itself. The signature is not
    /// checked, and how long the token lives is for the upstream to say.
    pub fn parse(origin: &str, name: &str, value: &str, now: i64) -> (r: Option<RoutingCookie>)
        ensures
            match r {
                Some(cookie) => {
                    &&& routing_claims(name@, value@, now as int) == Some(
                        CookieClaims {
                            pod: cookie.pod@,
                            issued_at: cookie.issued_at as int,
                            expires_at: cookie.expires_at as int,
                        },
                    )
                    &&& cookie.origin@ == origin@
                    &&& cookie.name@ == name@
                    &&& cookie.value@ == value@
                    &&& cookie.observed_at == 0
                    &&& cookie.reported_model@ == Seq::<char>::empty()
                },
                None => routing_claims(name@, value@, now as int) is None,
            },
    {
        if !(same_text(name, "__oailb") || same_text(name, "__oai_lb")) || byte_length(value)
            > 4096 {
            return None;
        }
        let claims = match read_token(value) {
            Some(claims) => claims,
            None => {
                return None;
            },
        };
        if claims.issued_at <= 0 || claims.issued_at > now || claims.expires_at <= now {
            return None;
        }
        Some(
            RoutingCookie {
                origin: origin.to_owned(),
                pod: claims.pod,
                name: name.to_owned(),
                value: value.to_owned(),
                issued_at: claims.issued_at,
                expires_at: claims.expires_at,
                observed_at: 0,
                reported_model: String::new(),
            },
        )
    }

    /// The cookie is alive and the upstream served this model under it.
    pub open spec fn usable(self, model: Seq<char>, now: int) -> bool {
        self.issued_at <= now < self.expires_at && same_ignoring_case(self.reported_model@, model)
    }

    pub fn is_usable(&self, model: &str, now: i64) -> (r: bool)
        ensures
            r == self.usable(model@, now as int),
    {
        self.issued_at <= now && now < self.expires_at && same_text_ignoring_case(
            self.reported_model.as_str(),
            model,
        )
    }

    /// The cookie as a request header gives it.
    pub fn header(&self) -> (r: String)
        ensures
            r@ == self.name@ + "="@ + self.value@,
    {
        glue3(self.name.as_str(), "=", self.value.as_str())
    }

    /// What may be shown of the cookie: all but its value.
    pub fn status(&self) -> (r: RoutingCookieStatus)
        ensures
            r.gateway_id@ == gateway_or_empty(self.pod@),
            r.pod@ == self.pod@,
            r.issued_at == self.issued_at,
            r.expires_at == self.expires_at,
            r.observed_at == self.observed_at,
            r.reported_model@ == self.reported_model@,
            !r.allowed,
    {
        RoutingCookieStatus {
            gateway_id: self.gateway_id(),
            pod: self.pod.clone(),
            issued_at: self.issued_at,
            expires_at: self.expires_at,
            observed_at: self.observed_at,
            reported_model: self.reported_model.clone(),
            allowed: false,
        }
    }

    /// The cookie for a log, without its value.
    pub fn debug_text(&self) -> (r: String)
        ensures
            r@ == "RoutingCookie { pod: "@ + debug_quoted(self.pod@) + ", expires_at: "@
                + signed_decimal(self.expires_at as int) + ", .. }"@,
    {
        let mut r = glue3(
            "RoutingCookie { pod: ",
            quoted(self.pod.as_str()).as_str(),
            ", expires_at: ",
        );
        r.append(signed_decimal_text(self.expires_at).as_str());
        r.append(", .. }");
        r
    }
}

impl Clone for RoutingCookie {
    fn clone(&self) -> (r: RoutingCookie)
        ensures
            r == *self,
    {
        RoutingCookie {
            origin: self.origin.clone(),
            pod: self.pod.clone(),
            name: self.name.clone(),
            value: self.value.clone(),
            issued_at: self.issued_at,
            expires_at: self.expires_at,
            observed_at: self.observed_at,
            reported_model: self.reported_model.clone(),
        }
    }
}

/// What may be shown of a routing cookie.
#[derive(Debug)]
pub struct RoutingCookieStatus {
    pub gateway_id: String,
    pub pod: String,
    pub issued_at: i64,
    pub expires_at: i64,
    pub observed_at: i64,
    pub reported_model: String,
    pub allowed: bool,
}

/// What one exchange with the upstream showed of routing cookies. `observed_at`
/// is when the request began, in milliseconds, so that the answer to an older
/// request cannot undo what a newer one showed.
pub struct RoutingCookieObservation {
    pub origin: String,
    pub observed_at: i64,
    pub sent: Option<RoutingCookie>,
    pub received: Option<RoutingCookie>,
    pub reported_model: Option<String>,
    pub deleted: bool,
}

/// A cookie that is read can be used, once its model is known, from now until it
/// expires, and its host names a gateway.
pub proof fn a_read_cookie_is_usable_until_it_expires(
    cookie: RoutingCookie,
    name: Seq<char>,
    value: Seq<char>,
    now: int,
    later: int,
)
    requires
        routing_claims(name, value, now) == Some(
            CookieClaims {
                pod: cookie.pod@,
                issued_at: cookie.issued_at as int,
                expires_at: cookie.expires_at as int,
            },
        ),
        now <= later,
    ensures
        cookie.usable(cookie.reported_model@, later) <==> later < cookie.expires_at,
        cookie.usable(cookie.reported_model@, now),
        gateway_of(cookie.pod@) is Some,
{
}

} // verus!
