//! The routing cookies in the upstream's answers. A cookie counts together with
//! the model that the same answer names and the time when its request began.

use crate::account::cookie_lock::{
    routing_claims, CookieClaims, RoutingCookie, RoutingCookieObservation,
};
use crate::account::provider::ProviderAccount;
use crate::account::turn_state::{
    parse_url, url_parts, ObservationView, TurnStateBucket, TurnStateObservation,
};
use crate::probe::observe::{blank_observation, new_observation};
use crate::text::{
    optional_str, optional_text, same_ignoring_case, same_text,
    same_text_ignoring_case,
};
use vstd::prelude::*;

verus! {

/// A `Set-Cookie` field of an answer, taken apart.
pub struct CookieInput {
    pub name: String,
    pub value: String,
    /// The endpoint may send it back.
    pub may_replay: bool,
    pub delete: bool,
    pub expires_at: Option<i64>,
}

/// What a cookie says, by its parts.
pub struct CookieView {
    pub origin: Seq<char>,
    pub pod: Seq<char>,
    pub name: Seq<char>,
    pub value: Seq<char>,
    pub issued_at: int,
    pub expires_at: int,
    pub observed_at: int,
    pub reported_model: Seq<char>,
}

pub open spec fn cookie_view(cookie: RoutingCookie) -> CookieView {
    CookieView {
        origin: cookie.origin@,
        pod: cookie.pod@,
        name: cookie.name@,
        value: cookie.value@,
        issued_at: cookie.issued_at as int,
        expires_at: cookie.expires_at as int,
        observed_at: cookie.observed_at as int,
        reported_model: cookie.reported_model@,
    }
}

pub open spec fn optional_cookie(cookie: Option<RoutingCookie>) -> Option<CookieView> {
    match cookie {
        Some(cookie) => Some(cookie_view(cookie)),
        None => None,
    }
}

/// What the cookies of an answer come to: the one received last, and whether the
/// upstream took it away.
pub struct Received {
    pub cookie: Option<CookieView>,
    pub deleted: bool,
}

/// A cookie as it was received: it lives as long as its token and its field say.
pub open spec fn received_cookie(
    endpoint: Seq<char>,
    input: CookieInput,
    claims: CookieClaims,
    model: Seq<char>,
    started_at: int,
) -> CookieView {
    CookieView {
        origin: endpoint,
        pod: claims.pod,
        name: input.name@,
        value: input.value@,
        issued_at: claims.issued_at,
        expires_at: match input.expires_at {
            Some(expiry) if expiry < claims.expires_at => expiry as int,
            _ => claims.expires_at,
        },
        observed_at: started_at,
        reported_model: model,
    }
}

/// One field: it brings a cookie, or takes it away; one that brings something
/// else takes it away too.
pub open spec fn receive_one(
    before: Received,
    endpoint: Seq<char>,
    input: CookieInput,
    model: Seq<char>,
    started_at: int,
    now: int,
) -> Received {
    if !input.may_replay {
        before
    } else if input.delete {
        Received { deleted: true, ..before }
    } else {
        match routing_claims(input.name@, input.value@, now) {
            Some(claims) => Received {
                cookie: Some(received_cookie(endpoint, input, claims, model, started_at)),
                deleted: false,
            },
            None => Received { deleted: true, ..before },
        }
    }
}

pub open spec fn receive_all(
    endpoint: Seq<char>,
    inputs: Seq<CookieInput>,
    model: Seq<char>,
    started_at: int,
    now: int,
) -> Received
    decreases inputs.len(),
{
    if inputs.len() == 0 {
        Received { cookie: None, deleted: false }
    } else {
        receive_one(
            receive_all(endpoint, inputs.drop_last(), model, started_at, now),
            endpoint,
            inputs.last(),
            model,
            started_at,
            now,
        )
    }
}

/// The cookies of one origin, in order.
pub open spec fn of_origin(cookies: Seq<RoutingCookie>, origin: Seq<char>) -> Seq<RoutingCookie>
    decreases cookies.len(),
{
    if cookies.len() == 0 {
        Seq::empty()
    } else {
        let before = of_origin(cookies.drop_last(), origin);
        if cookies.last().origin@ == origin {
            before.push(cookies.last())
        } else {
            before
        }
    }
}

pub open spec fn model_or_empty(model: Option<Seq<char>>) -> Seq<char> {
    match model {
        Some(model) => model,
        None => Seq::empty(),
    }
}

/// The name of what the cookies of a business answer come to.
pub open spec fn business_outcome(
    bucket: TurnStateBucket,
    cookie: Option<RoutingCookie>,
    deleted: bool,
    requested_model: Seq<char>,
    model: Seq<char>,
) -> Seq<char> {
    if deleted {
        "cookie_deleted"@
    } else if cookie is None {
        "missing_cookie"@
    } else if !bucket.selectable(cookie->0) {
        "cookie_gateway_filtered"@
    } else if same_ignoring_case(model, requested_model) {
        "cookie_ready"@
    } else {
        "cookie_model_mismatch"@
    }
}

/// The hunt at one endpoint of the upstream.
pub struct TurnStateService {
    endpoint: String,
}

impl TurnStateService {
    pub closed spec fn address(self) -> Seq<char> {
        self.endpoint@
    }

    pub fn new(endpoint: String) -> (r: TurnStateService)
        ensures
            r.address() == endpoint@,
    {
        TurnStateService { endpoint }
    }

    pub fn endpoint(&self) -> (r: &str)
        ensures
            r@ == self.address(),
    {
        self.endpoint.as_str()
    }

    /// The bucket as this endpoint sees it: with its own cookies only.
    pub fn current(&self, bucket: TurnStateBucket) -> (r: TurnStateBucket)
        ensures
            r.routing_cookies@ == of_origin(bucket.routing_cookies@, self.address()),
            r == (TurnStateBucket { routing_cookies: r.routing_cookies, ..bucket }),
    {
        let mut kept: Vec<RoutingCookie> = Vec::new();
        let mut i: usize = 0;
        proof {
            assert(bucket.routing_cookies@.take(0) =~= Seq::empty());
        }
        while i < bucket.routing_cookies.len()
            invariant
                i <= bucket.routing_cookies@.len(),
                kept@ == of_origin(bucket.routing_cookies@.take(i as int), self.address()),
            decreases bucket.routing_cookies@.len() - i,
        {
            proof {
                let all = bucket.routing_cookies@;
                assert(all.take(i + 1).drop_last() =~= all.take(i as int));
                assert(all.take(i + 1).last() == all[i as int]);
            }
            if same_text(bucket.routing_cookies[i].origin.as_str(), self.endpoint.as_str()) {
                kept.push(bucket.routing_cookies[i].clone());
            }
            i += 1;
        }
        proof {
            let all = bucket.routing_cookies@;
            assert(all.take(all.len() as int) =~= all);
        }
        let mut bucket = bucket;
        bucket.routing_cookies = kept;
        bucket
    }

    /// The host of the endpoint, which its cookies must be for; none where the
    /// endpoint is no URL with a host, and no cookie is read then.
    pub fn host(&self) -> (r: Option<String>)
        ensures
            optional_text(r) == (match url_parts(self.address()) {
                Some(parts) => parts.host,
                None => None,
            }),
    {
        match parse_url(self.endpoint.as_str()) {
            Some(parts) => parts.host,
            None => None,
        }
    }

    fn receive(&self, input: &CookieInput, model: &str, started_at: i64, now: i64) -> (r: Option<
        RoutingCookie,
    >)
        ensures
            match routing_claims(input.name@, input.value@, now as int) {
                Some(claims) => optional_cookie(r) == Some(
                    received_cookie(
                        self.address(),
                        *input,
                        claims,
                        model@,
                        started_at as int,
                    ),
                ),
                None => r is None,
            },
    {
        let parsed = RoutingCookie::parse(
            self.endpoint.as_str(),
            input.name.as_str(),
            input.value.as_str(),
            now,
        );
        match parsed {
            Some(cookie) => {
                let mut cookie = cookie;
                if let Some(expiry) = input.expires_at {
                    if expiry < cookie.expires_at {
                        cookie.expires_at = expiry;
                    }
                }
                cookie.observed_at = started_at;
                cookie.reported_model = model.to_owned();
                Some(cookie)
            },
            None => None,
        }
    }

    /// Reads the cookies of an answer. `started_at` is when the request began.
    pub fn receive_cookies(
        &self,
        inputs: &Vec<CookieInput>,
        model: Option<&str>,
        started_at: i64,
        now: i64,
    ) -> (r: (Option<RoutingCookie>, bool))
        ensures
            ({
                let received = receive_all(
                    self.address(),
                    inputs@,
                    model_or_empty(optional_str(model)),
                    started_at as int,
                    now as int,
                );
                optional_cookie(r.0) == received.cookie && r.1 == received.deleted
            }),
    {
        let model: &str = match model {
            Some(model) => model,
            None => "",
        };
        proof {
            reveal_strlit("");
            assert(""@ =~= Seq::<char>::empty());
            assert(inputs@.take(0) =~= Seq::empty());
        }
        let mut cookie: Option<RoutingCookie> = None;
        let mut deleted = false;
        let mut i: usize = 0;
        while i < inputs.len()
            invariant
                i <= inputs@.len(),
                ({
                    let received = receive_all(
                        self.address(),
                        inputs@.take(i as int),
                        model@,
                        started_at as int,
                        now as int,
                    );
                    optional_cookie(cookie) == received.cookie && deleted == received.deleted
                }),
            decreases inputs@.len() - i,
        {
            proof {
                assert(inputs@.take(i + 1).drop_last() =~= inputs@.take(i as int));
                assert(inputs@.take(i + 1).last() == inputs@[i as int]);
            }
            let input = &inputs[i];
            if input.may_replay {
                if input.delete {
                    deleted = true;
                } else {
                    match self.receive(input, model, started_at, now) {
                        Some(received) => {
                            cookie = Some(received);
                            deleted = false;
                        },
                        None => {
                            deleted = true;
                        },
                    }
                }
            }
            i += 1;
        }
        proof {
            assert(inputs@.take(inputs@.len() as int) =~= inputs@);
        }
        (cookie, deleted)
    }

    /// What the store is told of an exchange; nothing where neither side showed a
    /// cookie.
    pub fn cookie_observation(
        &self,
        sent: Option<&RoutingCookie>,
        received: &Option<RoutingCookie>,
        model: Option<&str>,
        started_at: i64,
        deleted: bool,
    ) -> (r: Option<RoutingCookieObservation>)
        ensures
            r is Some == (received is Some || sent is Some),
            match r {
                Some(observation) => {
                    &&& observation.origin@ == self.address()
                    &&& observation.observed_at == started_at
                    &&& observation.sent == (match sent {
                        Some(cookie) => Some(*cookie),
                        None => None,
                    })
                    &&& observation.received == *received
                    &&& optional_text(observation.reported_model) == optional_str(model)
                    &&& observation.deleted == deleted
                },
                None => true,
            },
    {
        if received.is_none() && sent.is_none() {
            return None;
        }
        Some(
            RoutingCookieObservation {
                origin: self.endpoint.clone(),
                observed_at: started_at,
                sent: match sent {
                    Some(cookie) => Some(cookie.clone()),
                    None => None,
                },
                received: match received {
                    Some(cookie) => Some(cookie.clone()),
                    None => None,
                },
                reported_model: match model {
                    Some(model) => Some(model.to_owned()),
                    None => None,
                },
                deleted,
            },
        )
    }
}

/// The cookie that an exchange leaves: the one received, or else the one sent.
/// There is none where the store could not keep what was seen.
pub fn observed_cookie(
    sent: Option<&RoutingCookie>,
    received: Option<RoutingCookie>,
    store_failed: bool,
) -> (r: Option<RoutingCookie>)
    ensures
        r == (if store_failed {
            None
        } else if received is Some {
            received
        } else {
            match sent {
                Some(cookie) => Some(*cookie),
                None => None,
            }
        }),
{
    if store_failed {
        return None;
    }
    match received {
        Some(cookie) => Some(cookie),
        None => match sent {
            Some(cookie) => Some(cookie.clone()),
            None => None,
        },
    }
}

/// Milliseconds as seconds, rounded towards zero.
pub open spec fn whole_seconds(millis: int) -> int {
    if millis >= 0 {
        millis / 1000
    } else {
        -((-millis) / 1000)
    }
}

fn seconds_of_millis(millis: i64) -> (r: i64)
    ensures
        r == whole_seconds(millis as int),
{
    if millis >= 0 {
        millis / 1000
    } else {
        let distance: u64 = (-(millis as i128)) as u64;
        -((distance / 1000) as i64)
    }
}

/// The observation that a business answer leaves where cookies route an account;
/// nothing otherwise.
pub fn observe_business_cookie(
    bucket: &TurnStateBucket,
    account: &ProviderAccount,
    cookie: &Option<RoutingCookie>,
    deleted: bool,
    requested_model: &str,
    model: &str,
    egress: &str,
    started_at: i64,
    now: i64,
) -> (r: Option<TurnStateObservation>)
    ensures
        r is Some == bucket.config.cookie_lock_enabled,
        r is Some ==> r->0@ == (ObservationView {
            started_at: Some(whole_seconds(started_at as int) as i64),
            response_source: Some("response_created"@),
            outcome: business_outcome(*bucket, *cookie, deleted, requested_model@, model@),
            reported_model: Some(model@),
            oailb_host: match cookie {
                Some(cookie) => Some(cookie.pod@),
                None => None,
            },
            cookie_expires_at: match cookie {
                Some(cookie) => Some(cookie.expires_at),
                None => None,
            },
            ..blank_observation(
                account.id@,
                optional_text(account.upstream_account_id),
                optional_text(account.upstream_user_id),
                requested_model@,
                "passive"@,
                egress@,
                now,
            )
        }),
{
    if !bucket.config.cookie_lock_enabled {
        return None;
    }
    let selectable = match cookie {
        Some(cookie) => bucket.cookie_is_selectable(cookie),
        None => false,
    };
    let outcome = if deleted {
        "cookie_deleted"
    } else if cookie.is_none() {
        "missing_cookie"
    } else if !selectable {
        "cookie_gateway_filtered"
    } else if same_text_ignoring_case(model, requested_model) {
        "cookie_ready"
    } else {
        "cookie_model_mismatch"
    };
    let mut r = new_observation(
        account.id().as_str(),
        &account.upstream_account_id,
        &account.upstream_user_id,
        requested_model,
        "passive",
        egress,
        now,
    );
    r.started_at = Some(seconds_of_millis(started_at));
    r.response_source = Some("response_created".to_owned());
    r.outcome = outcome.to_owned();
    r.reported_model = Some(model.to_owned());
    match cookie {
        Some(cookie) => {
            r.oailb_host = Some(cookie.pod.clone());
            r.cookie_expires_at = Some(cookie.expires_at);
        },
        None => {},
    }
    Some(r)
}

/// A cookie that was received says when its request began and which model was
/// named with it, and it never outlives its token.
pub proof fn a_received_cookie_is_bounded(
    endpoint: Seq<char>,
    inputs: Seq<CookieInput>,
    model: Seq<char>,
    started_at: int,
    now: int,
)
    requires
        receive_all(endpoint, inputs, model, started_at, now).cookie is Some,
    ensures
        ({
            let cookie = receive_all(endpoint, inputs, model, started_at, now).cookie->0;
            &&& cookie.origin == endpoint
            &&& cookie.observed_at == started_at
            &&& cookie.reported_model == model
            &&& routing_claims(cookie.name, cookie.value, now) is Some
            &&& cookie.issued_at == routing_claims(cookie.name, cookie.value, now)->0.issued_at
            &&& cookie.expires_at <= routing_claims(cookie.name, cookie.value, now)->0.expires_at
        }),
    decreases inputs.len(),
{
    if inputs.len() > 0 {
        let before = receive_all(endpoint, inputs.drop_last(), model, started_at, now);
        if before.cookie is Some {
            a_received_cookie_is_bounded(endpoint, inputs.drop_last(), model, started_at, now);
        }
    }
}

} // verus!
