//! Credential checks, bearer-token extraction and token claims.
use vstd::prelude::*;
use vstd::string::*;

use crate::api::ApiError;
use crate::text::{
    chars_match_at, chars_of, contains_char, lowercase, occurs_at, push_str, to_lowercase, trim, trim_str,
};

verus! {

broadcast use vstd::string::group_string_axioms;

/// Body of a login request.
pub struct LoginRequest {
    pub email: String,
    pub password: String,
}

/// Answer to a successful login.
pub struct AuthTokenResponse {
    pub access_token: String,
    pub token_type: &'static str,
    pub expires_in_seconds: u64,
}

/// Answer to `GET /auth/me`.
pub struct MeResponse {
    pub user_id: String,
}

/// Claims carried by an access token.
#[derive(Debug, Clone)]
pub struct Claims {
    pub sub: String,
    pub email: String,
    pub iat: usize,
    pub exp: usize,
}

/// The user an authenticated request was made by.
#[derive(Debug, Clone)]
pub struct AuthUser {
    pub user_id: String,
}

/// Whether the given login credentials are well-formed: the e-mail address,
/// without surrounding white space, is non-empty and holds an `@`, and the
/// password has at least eight bytes.
pub open spec fn credentials_well_formed(email: Seq<char>, password_bytes: usize) -> bool {
    let e = trim(email);
    e.len() > 0 && e.contains('@') && password_bytes >= 8
}

/// Checks the shape of login credentials before they are looked up.
pub fn validate_credentials(email: &str, password: &str) -> (r: Result<(), ApiError>)
    ensures
        r is Ok <==> credentials_well_formed(email@, password.len()),
        ({
            let e = trim(email@);
            &&& (e.len() == 0 || !e.contains('@')) ==> r->Err_0.is_bad_request_with(
                "valid email is required"@,
            )
            &&& (e.len() > 0 && e.contains('@') && password.len() < 8)
                ==> r->Err_0.is_bad_request_with("password must be at least 8 characters"@)
        }),
{
    let email = trim_str(email);
    if email.unicode_len() == 0 || !contains_char(email, '@') {
        return Err(ApiError::BadRequest(String::from_str("valid email is required")));
    }
    if password.len() < 8 {
        return Err(ApiError::BadRequest(String::from_str("password must be at least 8 characters")));
    }
    Ok(())
}

/// `s` with every leading repetition of the non-empty `p` removed, as
/// `str::trim_start_matches` does.
pub open spec fn strip_repeated_prefix(s: Seq<char>, p: Seq<char>) -> Seq<char>
    decreases s.len(),
{
    if p.len() > 0 && occurs_at(s, p, 0) {
        strip_repeated_prefix(s.skip(p.len() as int), p)
    } else {
        s
    }
}

/// The scheme prefix of an `Authorization` header that carries a bearer token.
pub open spec fn bearer_prefix() -> Seq<char> {
    "Bearer "@
}

/// The token of a bearer `Authorization` header: every leading `"Bearer "` is
/// removed, then the surrounding white space.
pub open spec fn bearer_token(value: Seq<char>) -> Seq<char> {
    trim(strip_repeated_prefix(value, bearer_prefix()))
}

/// Takes the token out of an `Authorization` header value, which must start
/// with `"Bearer "`.
pub fn extract_bearer_token(value: &str) -> (r: Result<&str, ApiError>)
    ensures
        r is Ok <==> occurs_at(value@, bearer_prefix(), 0),
        r matches Ok(t) ==> t@ == bearer_token(value@),
        r is Err ==> r->Err_0.is_unauthorized_with(
            "authorization header must use Bearer token"@,
        ),
{
    let v = chars_of(value);
    let prefix = "Bearer ";
    proof {
        reveal_strlit("Bearer ");
    }
    let p = chars_of(prefix);
    if !chars_match_at(&v, &p, 0) {
        return Err(
            ApiError::Unauthorized(String::from_str("authorization header must use Bearer token")),
        );
    }
    let n = v.len();
    let mut i: usize = 0;
    assert(value@.subrange(0, n as int) =~= value@);
    while chars_match_at(&v, &p, i)
        invariant
            i <= n,
            n == v@.len(),
            v@ == value@,
            p@ == bearer_prefix(),
            p@.len() == 7,
            strip_repeated_prefix(value@, p@) == strip_repeated_prefix(
                value@.subrange(i as int, n as int),
                p@,
            ),
        decreases n - i,
    {
        proof {
            let t = value@.subrange(i as int, n as int);
            assert(t.subrange(0, p@.len() as int) =~= v@.subrange(i as int, i + p@.len()));
            assert(occurs_at(t, p@, 0));
            assert(t.skip(p@.len() as int) =~= value@.subrange(i + p@.len(), n as int));
        }
        i = i + p.len();
    }
    proof {
        let t = value@.subrange(i as int, n as int);
        assert(t.subrange(0, p@.len() as int) =~= v@.subrange(i as int, i + p@.len()) || !(i
            + p@.len() <= n));
        assert(!occurs_at(t, p@, 0));
        assert(value@.subrange(0, n as int) =~= value@);
    }
    let rest = value.substring_char(i, n);
    Ok(trim_str(rest))
}

#[verifier::external_type_specification]
#[verifier::external_body]
pub struct ExSystemTime(std::time::SystemTime);

#[verifier::external_type_specification]
#[verifier::external_body]
pub struct ExSystemTimeError(std::time::SystemTimeError);

/// Calls `SystemTime::now`; the reading depends on the clock, so nothing is
/// promised of it.
#[verifier::external_body]
fn system_now() -> std::time::SystemTime {
    std::time::SystemTime::now()
}

/// Calls `SystemTime::duration_since(UNIX_EPOCH)`, which fails when the clock
/// reads earlier than the epoch; which of the two happens depends on the clock.
#[verifier::external_body]
fn since_unix_epoch(t: &std::time::SystemTime) -> std::result::Result<
    core::time::Duration,
    std::time::SystemTimeError,
> {
    t.duration_since(std::time::UNIX_EPOCH)
}

/// Calls `Duration::as_secs`: the whole seconds of a duration that this
/// library only receives from the clock, so nothing is stated of the number.
#[verifier::external_body]
fn whole_seconds(d: &core::time::Duration) -> u64 {
    d.as_secs()
}

/// The text of a clock error, as its `Display` writes it; nothing is stated
/// of that text.
#[verifier::external_body]
fn clock_error_text(e: &std::time::SystemTimeError) -> String {
    format!("{e}")
}

/// The message of an internal error caused by the clock: the error's text
/// after `"system clock error: "`.
fn clock_error_message(text: &str) -> (m: String)
    ensures
        m@ == "system clock error: "@ + text@,
        occurs_at(m@, "system clock error: "@, 0),
{
    let mut m = String::from_str("system clock error: ");
    push_str(&mut m, text);
    proof {
        reveal_strlit("system clock error: ");
        assert(m@.subrange(0, 20) =~= "system clock error: "@);
    }
    m
}

/// Seconds since the Unix epoch, read from the system clock.
pub fn unix_now_seconds() -> (r: Result<u64, ApiError>)
    ensures
        r matches Err(e) ==> e matches ApiError::Internal(m) && occurs_at(
            m@,
            "system clock error: "@,
            0,
        ),
{
    let now = system_now();
    match since_unix_epoch(&now) {
        Ok(d) => Ok(whole_seconds(&d)),
        Err(e) => {
            let text = clock_error_text(&e);
            Err(ApiError::Internal(clock_error_message(text.as_str())))
        },
    }
}

/// `a * b`, or `u64::MAX` where the product does not fit.
pub open spec fn saturating_product(a: u64, b: u64) -> u64 {
    if a * b > u64::MAX { u64::MAX } else { (a * b) as u64 }
}

/// `a + b`, or `u64::MAX` where the sum does not fit.
pub open spec fn saturating_sum(a: u64, b: u64) -> u64 {
    if a + b > u64::MAX { u64::MAX } else { (a + b) as u64 }
}

/// The claims of an access token for `user_id`, issued at `now` (seconds
/// since the epoch) and valid for `ttl_minutes`, with the token's lifetime in
/// seconds. Both the lifetime and the expiry saturate at `u64::MAX`.
pub fn mint_claims(user_id: &str, email: &str, ttl_minutes: u64, now: u64) -> (r: (Claims, u64))
    ensures
        r.1 == saturating_product(ttl_minutes, 60),
        r.0.sub@ == user_id@,
        r.0.email@ == email@,
        r.0.iat == now as usize,
        r.0.exp == saturating_sum(now, r.1) as usize,
{
    let expires_in_seconds: u64 = if ttl_minutes <= u64::MAX / 60 {
        ttl_minutes * 60
    } else {
        u64::MAX
    };
    let exp: u64 = if now <= u64::MAX - expires_in_seconds {
        now + expires_in_seconds
    } else {
        u64::MAX
    };
    let claims = Claims {
        sub: String::from_str(user_id),
        email: String::from_str(email),
        iat: now as usize,
        exp: exp as usize,
    };
    (claims, expires_in_seconds)
}

/// The e-mail address a user logs in with, as it is compared and stored:
/// without surrounding white space, in lower case.
pub fn normalized_email(email: &str) -> (r: String)
    ensures
        r@ == lowercase(trim(email@)),
{
    to_lowercase(trim_str(email))
}

/// A bearer header gives back the token it was made from: for a token with no
/// surrounding white space that does not itself start with `"Bearer "`,
/// the token of `"Bearer " + token` is the token.
pub proof fn lemma_bearer_round_trip(token: Seq<char>)
    requires
        trim(token) == token,
        !occurs_at(token, bearer_prefix(), 0),
    ensures
        occurs_at(bearer_prefix() + token, bearer_prefix(), 0),
        bearer_token(bearer_prefix() + token) == token,
{
    reveal_strlit("Bearer ");
    let h = bearer_prefix() + token;
    assert(h.subrange(0, 7) =~= bearer_prefix());
    assert(h.skip(7) =~= token);
    assert(strip_repeated_prefix(token, bearer_prefix()) == token);
}

/// A token never expires before it is issued: its expiry is at or after its
/// issue time (the expiry saturates instead of wrapping).
pub proof fn lemma_expiry_not_before_issue(ttl_minutes: u64, now: u64)
    ensures
        saturating_sum(now, saturating_product(ttl_minutes, 60)) >= now,
{
}

/// The bearer token of a request, from its `Authorization` header (absent,
/// or not readable as text, when `header` is `None`).
pub fn request_token(header: Option<&str>) -> (r: Result<&str, ApiError>)
    ensures
        header is None ==> r->Err_0.is_unauthorized_with("missing authorization header"@),
        header matches Some(h) ==> match r {
            Ok(t) => occurs_at(h@, bearer_prefix(), 0) && t@ == bearer_token(h@),
            Err(e) => !occurs_at(h@, bearer_prefix(), 0) && e.is_unauthorized_with(
                "authorization header must use Bearer token"@,
            ),
        },
{
    match header {
        None => Err(ApiError::Unauthorized(String::from_str("missing authorization header"))),
        Some(h) => extract_bearer_token(h),
    }
}

#[verifier::external_type_specification]
#[verifier::external_body]
pub struct ExJwtError(jsonwebtoken::errors::Error);

/// A member of a token's payload object: its key, its text when it is a
/// string, and its value when it is an integer in the `u64` range.
pub open spec fn member_view(m: (String, Option<String>, Option<u64>)) -> (Seq<char>, Option<Seq<char>>, Option<u64>) {
    (m.0@, match m.1 {
        Some(t) => Some(t@),
        None => None,
    }, m.2)
}

/// What `jsonwebtoken::encode` with the default header (HS256) gives for a
/// payload object holding the members `sub`, `email`, `iat` and `exp`, signed
/// with `secret`. A function of its arguments alone.
pub uninterp spec fn jwt_hs256(sub: Seq<char>, email: Seq<char>, iat: usize, exp: usize, secret: Seq<u8>) -> Seq<char>;

/// The payload members of `token` that `jsonwebtoken::decode` reads, as a
/// `serde_json::Map`, when the token is an HS256 token signed with `secret`
/// that passes the checks other than expiry, in key order (see
/// `member_view`); `None` when it does not. A function of its arguments alone.
pub uninterp spec fn jwt_members(token: Seq<char>, secret: Seq<u8>) -> Option<Seq<(Seq<char>, Option<Seq<char>>, Option<u64>)>>;

/// The payload members of a token minted for these claims, in key order.
pub open spec fn claim_members(sub: Seq<char>, email: Seq<char>, iat: usize, exp: usize) -> Seq<(Seq<char>, Option<Seq<char>>, Option<u64>)> {
    seq![
        ("email"@, Some(email), None),
        ("exp"@, None, Some(exp as u64)),
        ("iat"@, None, Some(iat as u64)),
        ("sub"@, Some(sub), None),
    ]
}

/// Signs the claims `c` with `secret` into an HS256 token with
/// `jsonwebtoken::encode`, the claims given as a map of their four members.
/// As the crate's source shows, encoding cannot fail here (the key is an HMAC
/// key, as HS256 asks, the map always serialises, and HMAC signing always
/// succeeds); the token is a function of the claims and the secret, and
/// `decode` with the same secret reads back the same members.
#[verifier::external_body]
fn jwt_encode(c: &Claims, secret: &[u8]) -> (r: Result<String, jsonwebtoken::errors::Error>)
    ensures
        r is Ok,
        r matches Ok(t) ==> t@ == jwt_hs256(c.sub@, c.email@, c.iat, c.exp, secret@) && jwt_members(t@, secret@)
            == Some(claim_members(c.sub@, c.email@, c.iat, c.exp)),
{
    let mut m = serde_json::Map::new();
    m.insert("sub".to_string(), c.sub.as_str().into());
    m.insert("email".to_string(), c.email.as_str().into());
    m.insert("iat".to_string(), c.iat.into());
    m.insert("exp".to_string(), c.exp.into());
    jsonwebtoken::encode(&jsonwebtoken::Header::default(), &m, &jsonwebtoken::EncodingKey::from_secret(secret))
}

/// Checks `token` with `jsonwebtoken::decode` under HS256 and `secret`,
/// expiry included (against the clock, with the crate's default leeway), and
/// reads its payload as a map. Whether it passes depends on the time; when it
/// does, the members are those of `jwt_members`.
#[verifier::external_body]
fn jwt_decode(token: &str, secret: &[u8]) -> (r: Option<Vec<(String, Option<String>, Option<u64>)>>)
    ensures
        r matches Some(ms) ==> jwt_members(token@, secret@) == Some(ms@.map_values(|m| member_view(m))),
{
    let key = jsonwebtoken::DecodingKey::from_secret(secret);
    let validation = jsonwebtoken::Validation::new(jsonwebtoken::Algorithm::HS256);
    match jsonwebtoken::decode::<serde_json::Map<String, serde_json::Value>>(token, &key, &validation) {
        Ok(data) => Some(data.claims.into_iter().map(|(k, v)| (k, v.as_str().map(String::from), v.as_u64())).collect()),
        Err(_) => None,
    }
}

/// The first member of `ms` with key `key`: its text and integer value.
pub open spec fn member_of(ms: Seq<(Seq<char>, Option<Seq<char>>, Option<u64>)>, key: Seq<char>) -> Option<(Option<Seq<char>>, Option<u64>)>
    decreases ms.len(),
{
    if ms.len() == 0 {
        None
    } else if ms[0].0 == key {
        Some((ms[0].1, ms[0].2))
    } else {
        member_of(ms.drop_first(), key)
    }
}

/// An integer member as a `usize` claim.
pub open spec fn usize_member(m: Option<(Option<Seq<char>>, Option<u64>)>) -> Option<usize> {
    match m {
        Some((_, Some(n))) => if n <= usize::MAX { Some(n as usize) } else { None },
        _ => None,
    }
}

/// The claims a token's payload members give, as deserialising `Claims`
/// reads them: `sub` must be a string; `email` a string, or absent and then
/// empty; `iat` and `exp` integers that fit a `usize`. `None` otherwise.
pub open spec fn claims_of_members(ms: Seq<(Seq<char>, Option<Seq<char>>, Option<u64>)>) -> Option<(Seq<char>, Seq<char>, usize, usize)> {
    let sub = member_of(ms, "sub"@);
    let email = member_of(ms, "email"@);
    let iat = usize_member(member_of(ms, "iat"@));
    let exp = usize_member(member_of(ms, "exp"@));
    if sub matches Some((Some(s), _)) && (email is None || email matches Some((Some(_), _))) && iat is Some
        && exp is Some {
        Some((sub->Some_0.0->Some_0, match email {
            Some((Some(e), _)) => e,
            _ => Seq::empty(),
        }, iat->Some_0, exp->Some_0))
    } else {
        None
    }
}

fn find_member(ms: &Vec<(String, Option<String>, Option<u64>)>, key: &str) -> (r: Option<(Option<String>, Option<u64>)>)
    ensures
        match (r, member_of(ms@.map_values(|m| member_view(m)), key@)) {
            (Some(a), Some(b)) => b.1 == a.1 && match (a.0, b.0) {
                (Some(x), Some(y)) => x@ == y,
                (None, None) => true,
                _ => false,
            },
            (None, None) => true,
            _ => false,
        },
{
    let ghost all = ms@.map_values(|m| member_view(m));
    let n = ms.len();
    let mut i: usize = 0;
    assert(all.skip(0) =~= all);
    while i < n
        invariant
            i <= n,
            n == ms@.len(),
            all == ms@.map_values(|m| member_view(m)),
            member_of(all, key@) == member_of(all.skip(i as int), key@),
        decreases n - i,
    {
        let ghost rest = all.skip(i as int);
        assert(rest[0] == member_view(ms@[i as int]));
        assert(rest.drop_first() =~= all.skip(i + 1));
        if crate::text::same_text(ms[i].0.as_str(), key) {
            return Some((ms[i].1.clone(), ms[i].2));
        }
        i = i + 1;
    }
    None
}

/// Reads the claims out of a token's payload members; see `claims_of_members`.
pub fn claims_from_members(ms: &Vec<(String, Option<String>, Option<u64>)>) -> (r: Option<Claims>)
    ensures
        match (r, claims_of_members(ms@.map_values(|m| member_view(m)))) {
            (Some(c), Some(v)) => c.sub@ == v.0 && c.email@ == v.1 && c.iat == v.2 && c.exp == v.3,
            (None, None) => true,
            _ => false,
        },
{
    let sub = match find_member(ms, "sub") {
        Some((Some(s), _)) => s,
        _ => return None,
    };
    let email = match find_member(ms, "email") {
        None => String::new(),
        Some((Some(e), _)) => e,
        Some((None, _)) => return None,
    };
    let iat = match find_member(ms, "iat") {
        Some((_, Some(n))) => if n <= usize::MAX as u64 { n as usize } else { return None },
        _ => return None,
    };
    let exp = match find_member(ms, "exp") {
        Some((_, Some(n))) => if n <= usize::MAX as u64 { n as usize } else { return None },
        _ => return None,
    };
    Some(Claims { sub, email, iat, exp })
}

/// Whether `t` is the token minted for `user_id` and `email` at `now`, valid
/// for `ttl_minutes` and signed with `secret`: the signed claims of
/// `mint_claims`, whose payload members are exactly those claims.
pub open spec fn minted_token(
    t: Seq<char>,
    user_id: Seq<char>,
    email: Seq<char>,
    ttl_minutes: u64,
    now: u64,
    secret: Seq<u8>,
) -> bool {
    let exp = saturating_sum(now, saturating_product(ttl_minutes, 60)) as usize;
    &&& t == jwt_hs256(user_id, email, now as usize, exp, secret)
    &&& jwt_members(t, secret) == Some(claim_members(user_id, email, now as usize, exp))
}

/// An access token for `user_id`, issued at `now` (seconds since the epoch)
/// and valid for `ttl_minutes`, signed with `secret`, with its lifetime in
/// seconds; see `mint_claims`. The token carries exactly those claims.
pub fn mint_token_at(user_id: &str, email: &str, ttl_minutes: u64, now: u64, secret: &[u8]) -> (r: (String, u64))
    ensures
        r.1 == saturating_product(ttl_minutes, 60),
        minted_token(r.0@, user_id@, email@, ttl_minutes, now, secret@),
{
    let (claims, expires_in_seconds) = mint_claims(user_id, email, ttl_minutes, now);
    let token = jwt_encode(&claims, secret).unwrap();
    (token, expires_in_seconds)
}

/// An access token for `user_id`, issued now; see `mint_token_at`.
pub fn mint_token(user_id: &str, email: &str, ttl_minutes: u64, secret: &[u8]) -> (r: Result<(String, u64), ApiError>)
    ensures
        match r {
            Ok((t, secs)) => secs == saturating_product(ttl_minutes, 60) && exists|now: u64| #[trigger]
                minted_token(t@, user_id@, email@, ttl_minutes, now, secret@),
            Err(e) => e matches ApiError::Internal(m) && occurs_at(m@, "system clock error: "@, 0),
        },
{
    let now = unix_now_seconds()?;
    Ok(mint_token_at(user_id, email, ttl_minutes, now, secret))
}

/// Checks an access token's signature and expiry, and reads its claims.
/// Whether the token has expired depends on the clock; a token that passes
/// gives the claims its payload holds.
pub fn decode_token(token: &str, secret: &[u8]) -> (r: Result<Claims, ApiError>)
    ensures
        r is Err ==> r->Err_0.is_unauthorized_with("invalid or expired token"@),
        r matches Ok(c) ==> jwt_members(token@, secret@) matches Some(ms) && claims_of_members(ms)
            == Some((c.sub@, c.email@, c.iat, c.exp)),
        jwt_members(token@, secret@) is None ==> r is Err,
        (jwt_members(token@, secret@) matches Some(ms) && claims_of_members(ms) is None) ==> r is Err,
{
    let ms = match jwt_decode(token, secret) {
        Some(ms) => ms,
        None => return Err(ApiError::Unauthorized(String::from_str("invalid or expired token"))),
    };
    match claims_from_members(&ms) {
        Some(c) => Ok(c),
        None => Err(ApiError::Unauthorized(String::from_str("invalid or expired token"))),
    }
}

/// A minted token reads back as the claims it was minted with: the payload
/// members of a token for `sub`, `email`, `iat` and `exp` give exactly those
/// claims.
pub proof fn lemma_minted_claims_read_back(sub: Seq<char>, email: Seq<char>, iat: usize, exp: usize)
    ensures
        claims_of_members(claim_members(sub, email, iat, exp)) == Some((sub, email, iat, exp)),
{
    reveal_strlit("sub");
    reveal_strlit("email");
    reveal_strlit("iat");
    reveal_strlit("exp");
    let ms = claim_members(sub, email, iat, exp);
    assert("email"@[0] != "sub"@[0] && "exp"@[0] != "sub"@[0] && "iat"@[0] != "sub"@[0]);
    assert("iat"@[0] != "email"@[0] && "sub"@[0] != "email"@[0] && "exp"@[1] != "email"@[1]);
    assert("email"@[0] != "iat"@[0] && "exp"@[0] != "iat"@[0] && "email"@[1] != "exp"@[1]);
    reveal_with_fuel(member_of, 5);
    assert(member_of(ms, "email"@) == Some((Some(email), None::<u64>)));
    assert(member_of(ms, "sub"@) == Some((Some(sub), None::<u64>)));
    assert(member_of(ms, "iat"@) == Some((None::<Seq<char>>, Some(iat as u64))));
    assert(member_of(ms, "exp"@) == Some((None::<Seq<char>>, Some(exp as u64))));
}

/// Minting then decoding gives back the claims: the payload of a token minted
/// for `user_id` and `email` at `now`, valid for `ttl_minutes`, reads as
/// exactly those claims, issued at `now` and expiring `ttl_minutes` later
/// (saturating). So `decode_token` with the same secret, whenever it accepts
/// the token (before it expires, which the clock decides), returns them.
pub proof fn lemma_token_round_trip(
    t: Seq<char>,
    user_id: Seq<char>,
    email: Seq<char>,
    ttl_minutes: u64,
    now: u64,
    secret: Seq<u8>,
)
    requires
        minted_token(t, user_id, email, ttl_minutes, now, secret),
    ensures
        jwt_members(t, secret) matches Some(ms) && claims_of_members(ms) == Some(
            (
                user_id,
                email,
                now as usize,
                saturating_sum(now, saturating_product(ttl_minutes, 60)) as usize,
            ),
        ),
{
    lemma_minted_claims_read_back(
        user_id,
        email,
        now as usize,
        saturating_sum(now, saturating_product(ttl_minutes, 60)) as usize,
    );
}

} // verus!
