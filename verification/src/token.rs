//! The token service: issues and validates signed, time-bounded bearer
//! tokens that carry an administrator's identity and roles.

use vstd::prelude::*;
use vstd::string::{StrSliceExecFns, StringExecFns};
use jsonwebtoken::errors::ErrorKind;
use jsonwebtoken::{decode, encode, Algorithm, DecodingKey, EncodingKey, Header, Validation};
use serde_json::Value;
use crate::config::JwtConfig;

verus! {

/// The decoded content of a bearer token.
#[derive(Debug, Clone, PartialEq, Eq)]
pub struct Claims {
    /// The administrator's id.
    pub user_id: i64,
    /// The administrator's username.
    pub username: String,
    /// The role names, joined by commas.
    pub role: String,
    /// The moment the token expires, in seconds since the epoch.
    pub exp: u64,
}

/// The mathematical content of [`Claims`].
pub ghost struct ClaimsView {
    pub user_id: int,
    pub username: Seq<char>,
    pub role: Seq<char>,
    pub exp: nat,
}

impl View for Claims {
    type V = ClaimsView;

    open spec fn view(&self) -> ClaimsView {
        ClaimsView {
            user_id: self.user_id as int,
            username: self.username@,
            role: self.role@,
            exp: self.exp as nat,
        }
    }
}

/// Why a token could not be decoded, as the signature layer reports it.
#[derive(Debug, Clone, Copy, PartialEq, Eq, Structural)]
pub enum DecodeFailure {
    /// The text does not have the shape of a token.
    InvalidToken,
    /// The signature does not belong to the text and the secret.
    InvalidSignature,
    /// The token names an issuer that is not expected.
    InvalidIssuer,
    /// The token names an audience that is not expected.
    InvalidAudience,
    /// The token is not valid yet.
    ImmatureSignature,
    /// Anything else: an unreadable header or payload, a missing claim.
    Other,
}

/// The claims found in a token whose signature holds. A field is `None`
/// where the payload lacks it or holds a value of another type.
#[derive(Debug, Clone, PartialEq, Eq)]
pub struct RawClaims {
    pub user_id: Option<i64>,
    pub username: Option<String>,
    pub role: Option<String>,
    pub exp: Option<u64>,
}

/// The mathematical content of [`RawClaims`].
pub ghost struct RawClaimsView {
    pub user_id: Option<int>,
    pub username: Option<Seq<char>>,
    pub role: Option<Seq<char>>,
    pub exp: Option<nat>,
}

impl View for RawClaims {
    type V = RawClaimsView;

    open spec fn view(&self) -> RawClaimsView {
        RawClaimsView {
            user_id: match self.user_id {
                Some(v) => Some(v as int),
                None => None,
            },
            username: match self.username {
                Some(v) => Some(v@),
                None => None,
            },
            role: match self.role {
                Some(v) => Some(v@),
                None => None,
            },
            exp: match self.exp {
                Some(v) => Some(v as nat),
                None => None,
            },
        }
    }
}

/// The raw claims that hold exactly what `c` holds.
pub open spec fn raw_of(c: ClaimsView) -> RawClaimsView {
    RawClaimsView {
        user_id: Some(c.user_id),
        username: Some(c.username),
        role: Some(c.role),
        exp: Some(c.exp),
    }
}

/// The view of what decoding returned.
pub open spec fn decoded_view(r: Result<RawClaims, DecodeFailure>) -> Result<
    RawClaimsView,
    DecodeFailure,
> {
    match r {
        Ok(c) => Ok(c@),
        Err(e) => Err(e),
    }
}

/// The token that signing `claims` with `secret` under HMAC-SHA256 gives,
/// or `None` where signing fails.
pub uninterp spec fn hs256_encoded(claims: ClaimsView, secret: Seq<char>) -> Option<Seq<char>>;

/// What checking `token` against `secret` under HMAC-SHA256 gives, the
/// expiry left unchecked.
pub uninterp spec fn hs256_decoded(token: Seq<char>, secret: Seq<char>) -> Result<
    RawClaimsView,
    DecodeFailure,
>;

/// Whether the text has its last dot at `dot`: the signature is what
/// follows.
pub open spec fn last_dot_at(token: Seq<char>, dot: int) -> bool {
    &&& 0 <= dot < token.len()
    &&& token[dot] == '.'
    &&& forall|i: int| dot < i < token.len() ==> token[i] != '.'
}

/// Whether `other` is `token` with another signature: the two agree up to
/// the last dot of each, and differ behind it.
pub open spec fn resigned(token: Seq<char>, other: Seq<char>) -> bool {
    exists|dot: int|
        #![trigger last_dot_at(token, dot)]
        last_dot_at(token, dot) && last_dot_at(other, dot) && token.take(dot + 1) == other.take(
            dot + 1,
        ) && token != other
}

/// `jsonwebtoken::errors::Error`, carried through unread.
#[verifier::external_type_specification]
#[verifier::external_body]
pub struct ExJwtError(jsonwebtoken::errors::Error);

/// `jsonwebtoken::encode` with the default header (HS256) and the secret as
/// the HMAC key. The payload is the JSON object of the four claims. The
/// contract names the token, and claims two things of `jsonwebtoken::decode`
/// with the same secret, HS256 and the expiry check switched off: that it
/// reads the same four claims back from the token; and that it refuses
/// with `InvalidSignature` every text that is the token with another
/// signature, since for an HMAC it signs the part before the last dot
/// again and compares the result with the part behind it as text.
#[verifier::external_body]
fn encode_hs256(claims: &Claims, secret: &str) -> (r: Result<String, jsonwebtoken::errors::Error>)
    ensures
        match r {
            Ok(t) => hs256_encoded(claims@, secret@) == Some(t@) && hs256_decoded(t@, secret@)
                == Ok::<RawClaimsView, DecodeFailure>(raw_of(claims@)) && forall|other: Seq<char>|
                resigned(t@, other) ==> #[trigger] hs256_decoded(other, secret@) == Err::<
                    RawClaimsView,
                    DecodeFailure,
                >(DecodeFailure::InvalidSignature),
            Err(_) => hs256_encoded(claims@, secret@) is None,
        },
{
    let mut m = serde_json::Map::new();
    m.insert("user_id".to_owned(), Value::from(claims.user_id));
    m.insert("username".to_owned(), Value::from(claims.username.as_str()));
    m.insert("role".to_owned(), Value::from(claims.role.as_str()));
    m.insert("exp".to_owned(), Value::from(claims.exp));
    encode(&Header::default(), &m, &EncodingKey::from_secret(secret.as_bytes()))
}

/// `jsonwebtoken::decode` for HS256 with the secret as the HMAC key and the
/// expiry check switched off, so that the outcome depends on the token and
/// the secret alone. The four claims are picked out of the payload, and an
/// error is told by its kind.
#[verifier::external_body]
fn decode_hs256(token: &str, secret: &str) -> (r: Result<RawClaims, DecodeFailure>)
    ensures
        decoded_view(r) == hs256_decoded(token@, secret@),
{
    let mut v = Validation::new(Algorithm::HS256);
    v.validate_exp = false;
    let c = match decode::<Value>(token, &DecodingKey::from_secret(secret.as_bytes()), &v) {
        Ok(d) => d.claims,
        Err(e) => return Err(match e.kind() {
            ErrorKind::InvalidToken => DecodeFailure::InvalidToken,
            ErrorKind::InvalidSignature => DecodeFailure::InvalidSignature,
            ErrorKind::InvalidIssuer => DecodeFailure::InvalidIssuer,
            ErrorKind::InvalidAudience => DecodeFailure::InvalidAudience,
            ErrorKind::ImmatureSignature => DecodeFailure::ImmatureSignature,
            _ => DecodeFailure::Other,
        }),
    };
    let (username, role) = (c["username"].as_str().map(str::to_owned), c["role"].as_str().map(str::to_owned));
    Ok(RawClaims { user_id: c["user_id"].as_i64(), username, role, exp: c["exp"].as_u64() })
}

/// `SystemTime::now().duration_since(UNIX_EPOCH)` of std, in whole
/// seconds: the moment by the machine's clock, or `None` where the clock
/// reads a moment before the epoch. Nothing is claimed of the value.
#[verifier::external_body]
fn unix_now() -> Option<u64> {
    match std::time::SystemTime::now().duration_since(std::time::UNIX_EPOCH) {
        Ok(elapsed) => Some(elapsed.as_secs()),
        Err(_) => None,
    }
}

/// Why the token service refused.
#[derive(Debug, Clone, Copy, PartialEq, Eq, Structural)]
pub enum TokenError {
    /// The configured signing secret is empty.
    EmptySecret,
    /// The configured lifetime is zero.
    ZeroTtl,
    /// The token's expiry has been reached.
    Expired,
    /// The signature does not belong to the token.
    BadSignature,
    /// The text does not have the shape of a token.
    Malformed,
    /// The token names an issuer that is not expected.
    BadIssuer,
    /// The token names an audience that is not expected.
    BadAudience,
    /// The token is not valid yet.
    NotYetValid,
    /// Any other failure of signing, decoding or the clock.
    Other,
}

/// What a token error says, for the log.
pub open spec fn token_error_text(e: TokenError) -> Seq<char> {
    match e {
        TokenError::EmptySecret => "JWT secret is empty"@,
        TokenError::ZeroTtl => "JWT expires_in is invalid"@,
        TokenError::Expired => "令牌已过期"@,
        TokenError::BadSignature => "无效的令牌签名"@,
        TokenError::Malformed => "令牌格式无效"@,
        _ => "令牌验证失败"@,
    }
}

impl TokenError {
    /// What the error says, for the log.
    pub fn message(&self) -> (r: String)
        ensures
            r@ == token_error_text(*self),
    {
        match self {
            TokenError::EmptySecret => String::from_str("JWT secret is empty"),
            TokenError::ZeroTtl => String::from_str("JWT expires_in is invalid"),
            TokenError::Expired => String::from_str("令牌已过期"),
            TokenError::BadSignature => String::from_str("无效的令牌签名"),
            TokenError::Malformed => String::from_str("令牌格式无效"),
            _ => String::from_str("令牌验证失败"),
        }
    }

    /// Whether the error lies in the configuration and not in a token.
    pub open spec fn spec_is_config(&self) -> bool {
        *self == TokenError::EmptySecret || *self == TokenError::ZeroTtl
    }

    /// Whether the error lies in the configuration and not in a token.
    #[verifier::when_used_as_spec(spec_is_config)]
    pub fn is_config(&self) -> (r: bool)
        ensures
            r == self.spec_is_config(),
    {
        match self {
            TokenError::EmptySecret => true,
            TokenError::ZeroTtl => true,
            _ => false,
        }
    }
}

/// The configuration fault of `(secret, ttl)`, if it has one: an empty
/// secret comes before a zero lifetime.
pub open spec fn config_fault(secret: Seq<char>, ttl: u64) -> Option<TokenError> {
    if secret.len() == 0 {
        Some(TokenError::EmptySecret)
    } else if ttl == 0 {
        Some(TokenError::ZeroTtl)
    } else {
        None
    }
}

/// Tests the configuration as both operations of the service do before
/// they work.
pub fn check_config(config: &JwtConfig) -> (r: Result<(), TokenError>)
    ensures
        r == match config_fault(config.secret@, config.expires_in) {
            Some(e) => Err::<(), TokenError>(e),
            None => Ok(()),
        },
{
    if config.secret.as_str().is_empty() {
        Err(TokenError::EmptySecret)
    } else if config.expires_in == 0 {
        Err(TokenError::ZeroTtl)
    } else {
        Ok(())
    }
}

/// The class of a failure of the signature layer.
pub open spec fn failure_class(e: DecodeFailure) -> TokenError {
    match e {
        DecodeFailure::InvalidSignature => TokenError::BadSignature,
        DecodeFailure::InvalidToken => TokenError::Malformed,
        DecodeFailure::InvalidIssuer => TokenError::BadIssuer,
        DecodeFailure::InvalidAudience => TokenError::BadAudience,
        DecodeFailure::ImmatureSignature => TokenError::NotYetValid,
        DecodeFailure::Other => TokenError::Other,
    }
}

/// How a decoding outcome is judged at the moment `now`: a failure of the
/// signature layer keeps its class whatever the time; a payload that lacks
/// one of the four claims is `Other`; a complete one is `Expired` from its
/// expiry on, and before that it is the result.
pub open spec fn judged(decoded: Result<RawClaimsView, DecodeFailure>, now: nat) -> Result<
    ClaimsView,
    TokenError,
> {
    match decoded {
        Err(e) => Err(failure_class(e)),
        Ok(raw) => if raw.user_id is Some && raw.username is Some && raw.role is Some
            && raw.exp is Some {
            if now >= raw.exp->0 {
                Err(TokenError::Expired)
            } else {
                Ok(
                    ClaimsView {
                        user_id: raw.user_id->0,
                        username: raw.username->0,
                        role: raw.role->0,
                        exp: raw.exp->0,
                    },
                )
            }
        } else {
            Err(TokenError::Other)
        },
    }
}

/// The view of a validation result.
pub open spec fn validated_view(r: Result<Claims, TokenError>) -> Result<ClaimsView, TokenError> {
    match r {
        Ok(c) => Ok(c@),
        Err(e) => Err(e),
    }
}

/// Judges what decoding returned at the moment `now`, with no grace
/// period: see [`judged`].
pub fn check_decoded(decoded: Result<RawClaims, DecodeFailure>, now: u64) -> (r: Result<
    Claims,
    TokenError,
>)
    ensures
        validated_view(r) == judged(decoded_view(decoded), now as nat),
{
    match decoded {
        Err(DecodeFailure::InvalidSignature) => Err(TokenError::BadSignature),
        Err(DecodeFailure::InvalidToken) => Err(TokenError::Malformed),
        Err(DecodeFailure::InvalidIssuer) => Err(TokenError::BadIssuer),
        Err(DecodeFailure::InvalidAudience) => Err(TokenError::BadAudience),
        Err(DecodeFailure::ImmatureSignature) => Err(TokenError::NotYetValid),
        Err(DecodeFailure::Other) => Err(TokenError::Other),
        Ok(raw) => {
            let RawClaims { user_id, username, role, exp } = raw;
            match (user_id, username, role, exp) {
                (Some(user_id), Some(username), Some(role), Some(exp)) => {
                    if now >= exp {
                        Err(TokenError::Expired)
                    } else {
                        Ok(Claims { user_id, username, role, exp })
                    }
                },
                _ => Err(TokenError::Other),
            }
        },
    }
}

/// What validating `token` under `(secret, ttl)` at the moment `now`
/// returns.
pub open spec fn validated(secret: Seq<char>, ttl: u64, token: Seq<char>, now: nat) -> Result<
    ClaimsView,
    TokenError,
> {
    match config_fault(secret, ttl) {
        Some(e) => Err(e),
        None => judged(hs256_decoded(token, secret), now),
    }
}

/// Validates `token` as of the moment `now`: the configuration is tested
/// first, then the signature and the shape, then the expiry.
pub fn validate_at(config: &JwtConfig, token: &str, now: u64) -> (r: Result<Claims, TokenError>)
    ensures
        validated_view(r) == validated(config.secret@, config.expires_in, token@, now as nat),
{
    match check_config(config) {
        Err(e) => Err(e),
        Ok(()) => check_decoded(decode_hs256(token, config.secret.as_str()), now),
    }
}

/// What validating returns where the clock may have failed: with a moment,
/// what [`validated`] gives at it; without one, a fault of the
/// configuration or of the signature layer as it is, and `Other` for a
/// token whose expiry could not be judged.
pub open spec fn validated_by(
    secret: Seq<char>,
    ttl: u64,
    token: Seq<char>,
    clock: Option<u64>,
) -> Result<ClaimsView, TokenError> {
    match clock {
        Some(now) => validated(secret, ttl, token, now as nat),
        None => match validated(secret, ttl, token, 0) {
            Ok(_) => Err(TokenError::Other),
            Err(TokenError::Expired) => Err(TokenError::Other),
            Err(e) => Err(e),
        },
    }
}

/// Validates `token` by what the clock gave: see [`validated_by`].
pub fn validate_by_clock(config: &JwtConfig, token: &str, clock: Option<u64>) -> (r: Result<
    Claims,
    TokenError,
>)
    ensures
        validated_view(r) == validated_by(config.secret@, config.expires_in, token@, clock),
{
    match clock {
        Some(now) => validate_at(config, token, now),
        None => match validate_at(config, token, 0) {
            Ok(_) => Err(TokenError::Other),
            Err(TokenError::Expired) => Err(TokenError::Other),
            Err(e) => Err(e),
        },
    }
}

/// Validates `token` by the machine's clock. A faulty configuration is
/// reported as that fault and a failure of the signature layer by its
/// class, whatever the clock says; for the rest the result is what
/// [`validated_by`] gives for the clock's reading.
pub fn verify_token(config: &JwtConfig, token: &str) -> (r: Result<Claims, TokenError>)
    ensures
        exists|clock: Option<u64>|
            validated_view(r) == #[trigger] validated_by(
                config.secret@,
                config.expires_in,
                token@,
                clock,
            ),
        config_fault(config.secret@, config.expires_in) matches Some(e) ==> validated_view(r)
            == Err::<ClaimsView, TokenError>(e),
        config_fault(config.secret@, config.expires_in) is None ==> (hs256_decoded(
            token@,
            config.secret@,
        ) matches Err(e) ==> validated_view(r) == Err::<ClaimsView, TokenError>(failure_class(e))),
{
    let clock = unix_now();
    let r = validate_by_clock(config, token, clock);
    proof {
        assert(validated_view(r) == validated_by(
            config.secret@,
            config.expires_in,
            token@,
            clock,
        ));
    }
    r
}

/// The views of a list of strings.
pub open spec fn views_of(v: Seq<String>) -> Seq<Seq<char>> {
    Seq::new(v.len(), |i: int| v[i]@)
}

/// The names of `roles` in order, with a comma between neighbours.
pub open spec fn joined(roles: Seq<Seq<char>>) -> Seq<char>
    decreases roles.len(),
{
    if roles.len() == 0 {
        Seq::empty()
    } else if roles.len() == 1 {
        roles[0]
    } else {
        joined(roles.drop_last()) + seq![','] + roles.last()
    }
}

/// Joins the role names with commas, as the token carries them.
pub fn join_roles(roles: &Vec<String>) -> (r: String)
    ensures
        r@ == joined(views_of(roles@)),
{
    let mut out = String::new();
    let mut i: usize = 0;
    while i < roles.len()
        invariant
            i <= roles.len(),
            out@ == joined(views_of(roles@).take(i as int)),
        decreases roles.len() - i,
    {
        let ghost before = views_of(roles@).take(i as int);
        let ghost after = views_of(roles@).take(i + 1);
        proof {
            assert(after.drop_last() == before);
            assert(after.last() == roles@[i as int]@);
            reveal_strlit(",");
            assert(","@ == seq![',']);
        }
        if i > 0 {
            out.append(",");
        }
        out.append(roles[i].as_str());
        proof {
            if i == 0 {
                assert(before.len() == 0);
                assert(out@ == roles@[0]@);
                assert(after.len() == 1);
            }
        }
        i = i + 1;
    }
    proof {
        assert(views_of(roles@).take(roles.len() as int) == views_of(roles@));
    }
    out
}

/// The claims of a token issued at `now` with lifetime `ttl`.
pub open spec fn issued_claims(
    user_id: i64,
    username: Seq<char>,
    roles: Seq<Seq<char>>,
    now: u64,
    ttl: u64,
) -> ClaimsView {
    ClaimsView { user_id: user_id as int, username, role: joined(roles), exp: (now + ttl) as nat }
}

/// What issuing at the moment `now` returns: a configuration fault first;
/// `Other` where the expiry would not fit in 64 bits or signing fails; else
/// the signed token of [`issued_claims`].
pub open spec fn issued(
    secret: Seq<char>,
    ttl: u64,
    user_id: i64,
    username: Seq<char>,
    roles: Seq<Seq<char>>,
    now: u64,
) -> Result<Seq<char>, TokenError> {
    match config_fault(secret, ttl) {
        Some(e) => Err(e),
        None => if now + ttl > u64::MAX {
            Err(TokenError::Other)
        } else {
            match hs256_encoded(issued_claims(user_id, username, roles, now, ttl), secret) {
                Some(t) => Ok(t),
                None => Err(TokenError::Other),
            }
        },
    }
}

/// The view of an issuing result.
pub open spec fn issued_view(r: Result<String, TokenError>) -> Result<Seq<char>, TokenError> {
    match r {
        Ok(t) => Ok(t@),
        Err(e) => Err(e),
    }
}

/// Whether every text that is `token` with another signature is refused
/// for its signature, at every moment.
pub open spec fn guards_signature(secret: Seq<char>, ttl: u64, token: Seq<char>) -> bool {
    forall|other: Seq<char>, now: nat|
        resigned(token, other) ==> #[trigger] validated(secret, ttl, other, now) == Err::<
            ClaimsView,
            TokenError,
        >(TokenError::BadSignature)
}

/// Issues a token at the moment `now`: its claims are the id, the name, the
/// joined roles and the expiry `now + expires_in`. The token validates to
/// exactly these claims at every moment before the expiry, and is `Expired`
/// from the expiry on. With another signature it is refused as
/// `BadSignature`, before the expiry and after it.
pub fn issue_at(
    config: &JwtConfig,
    user_id: i64,
    username: &str,
    roles: &Vec<String>,
    now: u64,
) -> (r: Result<String, TokenError>)
    ensures
        issued_view(r) == issued(
            config.secret@,
            config.expires_in,
            user_id,
            username@,
            views_of(roles@),
            now,
        ),
        r matches Ok(t) ==> forall|later: nat|
            #[trigger] validated(config.secret@, config.expires_in, t@, later) == if later < now
                + config.expires_in {
                Ok::<ClaimsView, TokenError>(
                    issued_claims(user_id, username@, views_of(roles@), now, config.expires_in),
                )
            } else {
                Err::<ClaimsView, TokenError>(TokenError::Expired)
            },
        r matches Ok(t) ==> guards_signature(config.secret@, config.expires_in, t@),
{
    match check_config(config) {
        Err(e) => Err(e),
        Ok(()) => match now.checked_add(config.expires_in) {
            None => Err(TokenError::Other),
            Some(exp) => {
                let claims = Claims {
                    user_id,
                    username: String::from_str(username),
                    role: join_roles(roles),
                    exp,
                };
                match encode_hs256(&claims, config.secret.as_str()) {
                    Ok(t) => Ok(t),
                    Err(_) => Err(TokenError::Other),
                }
            },
        },
    }
}

/// What issuing returns where the clock may have failed: a configuration
/// fault first, whatever the clock; then `Other` without a moment; else
/// what [`issued`] gives at the moment.
pub open spec fn issued_by(
    secret: Seq<char>,
    ttl: u64,
    user_id: i64,
    username: Seq<char>,
    roles: Seq<Seq<char>>,
    clock: Option<u64>,
) -> Result<Seq<char>, TokenError> {
    match config_fault(secret, ttl) {
        Some(e) => Err(e),
        None => match clock {
            Some(now) => issued(secret, ttl, user_id, username, roles, now),
            None => Err(TokenError::Other),
        },
    }
}

/// Issues a token by what the clock gave: see [`issued_by`]. A token that
/// comes back was issued at the clock's moment, and validates as
/// [`issue_at`] says.
pub fn issue_by_clock(
    config: &JwtConfig,
    user_id: i64,
    username: &str,
    roles: &Vec<String>,
    clock: Option<u64>,
) -> (r: Result<String, TokenError>)
    ensures
        issued_view(r) == issued_by(
            config.secret@,
            config.expires_in,
            user_id,
            username@,
            views_of(roles@),
            clock,
        ),
        r matches Ok(t) ==> clock is Some && forall|later: nat|
            #[trigger] validated(config.secret@, config.expires_in, t@, later) == if later
                < clock->0 + config.expires_in {
                Ok::<ClaimsView, TokenError>(
                    issued_claims(
                        user_id,
                        username@,
                        views_of(roles@),
                        clock->0,
                        config.expires_in,
                    ),
                )
            } else {
                Err::<ClaimsView, TokenError>(TokenError::Expired)
            },
        r matches Ok(t) ==> guards_signature(config.secret@, config.expires_in, t@),
{
    match check_config(config) {
        Err(e) => Err(e),
        Ok(()) => match clock {
            Some(now) => issue_at(config, user_id, username, roles, now),
            None => Err(TokenError::Other),
        },
    }
}

/// Issues a token by the machine's clock. A faulty configuration is
/// reported as that fault, whatever the clock says; for the rest the
/// result is what [`issued_by`] gives for the clock's reading. A token that
/// comes back was issued at some moment `now`: it validates to the claims
/// of that moment before `now + expires_in`, and is `Expired` from then on;
/// with another signature it is refused as `BadSignature`.
pub fn generate_token(config: &JwtConfig, user_id: i64, username: &str, roles: &Vec<String>) -> (r:
    Result<String, TokenError>)
    ensures
        exists|clock: Option<u64>|
            issued_view(r) == #[trigger] issued_by(
                config.secret@,
                config.expires_in,
                user_id,
                username@,
                views_of(roles@),
                clock,
            ),
        config_fault(config.secret@, config.expires_in) matches Some(e) ==> issued_view(r)
            == Err::<Seq<char>, TokenError>(e),
        r matches Ok(t) ==> exists|now: u64|
            issued_view(r) == #[trigger] issued(
                config.secret@,
                config.expires_in,
                user_id,
                username@,
                views_of(roles@),
                now,
            ) && forall|later: nat|
                #[trigger] validated(config.secret@, config.expires_in, t@, later) == if later
                    < now + config.expires_in {
                    Ok::<ClaimsView, TokenError>(
                        issued_claims(user_id, username@, views_of(roles@), now, config.expires_in),
                    )
                } else {
                    Err::<ClaimsView, TokenError>(TokenError::Expired)
                },
        r matches Ok(t) ==> guards_signature(config.secret@, config.expires_in, t@),
{
    let clock = unix_now();
    let r = issue_by_clock(config, user_id, username, roles, clock);
    proof {
        assert(issued_view(r) == issued_by(
            config.secret@,
            config.expires_in,
            user_id,
            username@,
            views_of(roles@),
            clock,
        ));
        if r is Ok {
            let now = clock->0;
            assert(issued_view(r) == issued(
                config.secret@,
                config.expires_in,
                user_id,
                username@,
                views_of(roles@),
                now,
            ));
        }
    }
    r
}

/// A signature that does not hold is reported as such at every moment:
/// before the expiry and after it, never as `Expired` or `Malformed`.
pub proof fn lemma_bad_signature_at_any_time(
    secret: Seq<char>,
    ttl: u64,
    token: Seq<char>,
    now: nat,
)
    requires
        config_fault(secret, ttl) is None,
        hs256_decoded(token, secret) == Err::<RawClaimsView, DecodeFailure>(
            DecodeFailure::InvalidSignature,
        ),
    ensures
        validated(secret, ttl, token, now) == Err::<ClaimsView, TokenError>(
            TokenError::BadSignature,
        ),
{
}

/// A token with one character of its signature replaced by another is the
/// token with another signature, unless the new character is a dot, which
/// would end the signature there.
pub proof fn lemma_changed_signature_is_another(token: Seq<char>, dot: int, at: int, new: char)
    requires
        last_dot_at(token, dot),
        dot < at < token.len(),
        new != token[at],
        new != '.',
    ensures
        resigned(token, token.update(at, new)),
{
    let other = token.update(at, new);
    assert(last_dot_at(other, dot));
    assert(token.take(dot + 1) =~= other.take(dot + 1));
    assert(other[at] != token[at]);
}

/// The pieces of a text between its commas: one more than it has commas.
pub open spec fn pieces(text: Seq<char>) -> Seq<Seq<char>>
    decreases text.len(),
{
    if text.len() == 0 {
        seq![Seq::empty()]
    } else if text.last() == ',' {
        pieces(text.drop_last()).push(Seq::empty())
    } else {
        pieces(text.drop_last()).drop_last().push(pieces(text.drop_last()).last().push(text.last()))
    }
}

/// The role names that a joined text carries: none for the empty text,
/// else its pieces.
pub open spec fn role_list(text: Seq<char>) -> Seq<Seq<char>> {
    if text.len() == 0 {
        Seq::empty()
    } else {
        pieces(text)
    }
}

/// Whether the name can stand in a joined text: it is not empty and holds
/// no comma.
pub open spec fn plain_name(name: Seq<char>) -> bool {
    name.len() > 0 && !name.contains(',')
}

/// After a text and a comma, a name without a comma is one more piece.
pub proof fn lemma_pieces_after_comma(text: Seq<char>, name: Seq<char>)
    requires
        !name.contains(','),
    ensures
        pieces(text + seq![','] + name) == pieces(text).push(name),
    decreases name.len(),
{
    let whole = text + seq![','] + name;
    if name.len() == 0 {
        assert(whole.drop_last() =~= text);
        assert(name =~= Seq::empty());
    } else {
        let shorter = name.drop_last();
        assert(shorter.len() < name.len());
        assert(!shorter.contains(',')) by {
            if shorter.contains(',') {
                let i = choose|i: int| 0 <= i < shorter.len() && shorter[i] == ',';
                assert(name[i] == ',');
            }
        }
        lemma_pieces_after_comma(text, shorter);
        assert(whole.drop_last() =~= text + seq![','] + shorter);
        assert(whole.last() == name.last());
        assert(name.last() != ',') by {
            assert(name[name.len() - 1] == name.last());
        }
        let before = pieces(text).push(shorter);
        assert(before.drop_last() =~= pieces(text));
        assert(shorter.push(name.last()) =~= name);
    }
}

/// A name without a comma is its own single piece.
pub proof fn lemma_pieces_of_name(name: Seq<char>)
    requires
        !name.contains(','),
    ensures
        pieces(name) == seq![name],
    decreases name.len(),
{
    if name.len() == 0 {
        assert(name =~= Seq::empty());
    } else {
        let shorter = name.drop_last();
        assert(!shorter.contains(',')) by {
            if shorter.contains(',') {
                let i = choose|i: int| 0 <= i < shorter.len() && shorter[i] == ',';
                assert(name[i] == ',');
            }
        }
        lemma_pieces_of_name(shorter);
        assert(name.last() != ',') by {
            assert(name[name.len() - 1] == name.last());
        }
        assert(seq![shorter].drop_last().push(shorter.push(name.last())) =~= seq![name]) by {
            assert(shorter.push(name.last()) =~= name);
        }
    }
}

/// Joining names that are not empty and hold no comma loses nothing:
/// the joined text carries exactly these names, in order.
pub proof fn lemma_split_undoes_join(roles: Seq<Seq<char>>)
    requires
        forall|i: int| 0 <= i < roles.len() ==> plain_name(#[trigger] roles[i]),
    ensures
        role_list(joined(roles)) == roles,
    decreases roles.len(),
{
    if roles.len() == 0 {
    } else if roles.len() == 1 {
        lemma_pieces_of_name(roles[0]);
        assert(seq![roles[0]] =~= roles);
    } else {
        let shorter = roles.drop_last();
        assert(forall|i: int| 0 <= i < shorter.len() ==> plain_name(#[trigger] shorter[i])) by {
            assert forall|i: int| 0 <= i < shorter.len() implies plain_name(
                #[trigger] shorter[i],
            ) by {
                assert(shorter[i] == roles[i]);
            }
        }
        lemma_split_undoes_join(shorter);
        lemma_joined_nonempty(shorter);
        lemma_pieces_after_comma(joined(shorter), roles.last());
        assert(shorter.push(roles.last()) =~= roles);
    }
}

/// Names that are not empty join to a text that is not empty.
pub proof fn lemma_joined_nonempty(roles: Seq<Seq<char>>)
    requires
        roles.len() > 0,
        forall|i: int| 0 <= i < roles.len() ==> plain_name(#[trigger] roles[i]),
    ensures
        joined(roles).len() > 0,
    decreases roles.len(),
{
    if roles.len() == 1 {
        assert(plain_name(roles[0]));
    }
}

/// Where the last piece of the first `i` characters of a text begins:
/// behind the last comma among them, or at the start.
pub open spec fn piece_start(text: Seq<char>, i: int) -> int
    decreases i,
{
    if i <= 0 {
        0
    } else if text[i - 1] == ',' {
        i
    } else {
        piece_start(text, i - 1)
    }
}

/// The last piece begins within the text read so far, and is the text
/// from there on.
pub proof fn lemma_last_piece(text: Seq<char>, i: int)
    requires
        0 <= i <= text.len(),
    ensures
        0 <= piece_start(text, i) <= i,
        pieces(text.take(i)).len() > 0,
        pieces(text.take(i)).last() == text.subrange(piece_start(text, i), i),
    decreases i,
{
    if i == 0 {
        assert(text.subrange(0, 0) =~= Seq::empty());
    } else {
        lemma_last_piece(text, i - 1);
        let read = text.take(i);
        assert(read.drop_last() == text.take(i - 1));
        assert(read.last() == text[i - 1]);
        if text[i - 1] == ',' {
            assert(text.subrange(i, i) =~= Seq::empty());
        } else {
            let start = piece_start(text, i - 1);
            assert(text.subrange(start, i - 1).push(text[i - 1]) =~= text.subrange(start, i));
        }
    }
}

impl Claims {
    /// The role names that the claims carry, split at the commas.
    pub fn roles(&self) -> (r: Vec<String>)
        ensures
            r.deep_view() == role_list(self.role@),
    {
        let text = self.role.as_str();
        let n = text.unicode_len();
        let mut done: Vec<String> = Vec::new();
        if n == 0 {
            proof {
                assert(done.deep_view() =~= Seq::empty());
            }
            return done;
        }
        let mut start: usize = 0;
        let mut i: usize = 0;
        proof {
            lemma_last_piece(text@, 0);
            assert(done.deep_view() =~= pieces(text@.take(0)).drop_last());
        }
        while i < n
            invariant
                n == text@.len(),
                i <= n,
                start == piece_start(text@, i as int),
                start <= i,
                done.deep_view() == pieces(text@.take(i as int)).drop_last(),
            decreases n - i,
        {
            let c = text.get_char(i);
            let ghost before = done.deep_view();
            proof {
                lemma_last_piece(text@, i as int);
                lemma_last_piece(text@, i + 1);
                assert(text@.take(i + 1).drop_last() == text@.take(i as int));
                assert(text@.take(i + 1).last() == c);
            }
            if c == ',' {
                done.push(String::from_str(text.substring_char(start, i)));
                start = i + 1;
                proof {
                    let read = pieces(text@.take(i as int));
                    assert(done.deep_view() =~= before.push(read.last()));
                    assert(before.push(read.last()) =~= read);
                    assert(read.push(Seq::empty()).drop_last() =~= read);
                }
            } else {
                proof {
                    let read = pieces(text@.take(i as int));
                    assert(read.drop_last().push(read.last().push(c)).drop_last()
                        =~= read.drop_last());
                }
            }
            i = i + 1;
        }
        let ghost before = done.deep_view();
        done.push(String::from_str(text.substring_char(start, n)));
        proof {
            lemma_last_piece(text@, n as int);
            assert(text@.take(n as int) == text@);
            assert(done.deep_view() =~= before.push(pieces(text@).last()));
            assert(before.push(pieces(text@).last()) =~= pieces(text@));
        }
        done
    }
}

} // verus!
