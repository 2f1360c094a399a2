//! The authorization guard: what a request's credential amounts to, and
//! the privilege that every lifecycle operation asks for.

use vstd::prelude::*;
use vstd::string::StringExecFns;
use crate::config::JwtConfig;
use crate::error::{AppError, AppErrorView};
use crate::token::{
    config_fault, failure_class, hs256_decoded, validate_at, validated, validated_by,
    validated_view, verify_token, Claims, ClaimsView, TokenError,
};

verus! {

/// The name of the role that may change the administrator population.
pub open spec fn super_admin() -> Seq<char> {
    "super_admin"@
}

/// Whether the role names hold the super-administrator role.
pub fn has_super_admin(roles: &Vec<String>) -> (r: bool)
    ensures
        r == roles.deep_view().contains(super_admin()),
{
    let wanted = String::from_str("super_admin");
    let mut i: usize = 0;
    while i < roles.len()
        invariant
            i <= roles.len(),
            wanted@ == super_admin(),
            forall|j: int| 0 <= j < i ==> roles.deep_view()[j] != super_admin(),
        decreases roles.len() - i,
    {
        if roles[i] == wanted {
            proof {
                assert(roles.deep_view()[i as int] == super_admin());
            }
            return true;
        }
        i = i + 1;
    }
    false
}

/// What a request's credential amounts to.
#[derive(Debug, Clone, PartialEq, Eq)]
pub enum AuthState {
    /// No credential came with the request.
    Unauthorized,
    /// A credential came and was refused, for the given reason.
    Forbidden(TokenError),
    /// The credential holds: these are its claims.
    Authorized(Claims),
}

/// The mathematical content of [`AuthState`].
pub ghost enum AuthStateView {
    Unauthorized,
    Forbidden(TokenError),
    Authorized(ClaimsView),
}

impl View for AuthState {
    type V = AuthStateView;

    open spec fn view(&self) -> AuthStateView {
        match self {
            AuthState::Unauthorized => AuthStateView::Unauthorized,
            AuthState::Forbidden(e) => AuthStateView::Forbidden(*e),
            AuthState::Authorized(c) => AuthStateView::Authorized(c@),
        }
    }
}

/// The credential of a request: the one from the header where there is
/// one, else the one from the query, else the one from the cookie.
pub fn first_token(header: Option<String>, query: Option<String>, cookie: Option<String>) -> (r:
    Option<String>)
    ensures
        r == if header is Some {
            header
        } else if query is Some {
            query
        } else {
            cookie
        },
{
    match header {
        Some(t) => Some(t),
        None => match query {
            Some(t) => Some(t),
            None => cookie,
        },
    }
}

/// The state that a credential amounts to at the moment `now`.
pub open spec fn decided(secret: Seq<char>, ttl: u64, token: Option<Seq<char>>, now: nat) -> AuthStateView {
    match token {
        None => AuthStateView::Unauthorized,
        Some(t) => match validated(secret, ttl, t, now) {
            Ok(claims) => AuthStateView::Authorized(claims),
            Err(e) => AuthStateView::Forbidden(e),
        },
    }
}

/// Decides the state of a request at the moment `now`: once, for every
/// handler alike.
pub fn authenticate_at(config: &JwtConfig, token: Option<&str>, now: u64) -> (r: AuthState)
    ensures
        r@ == decided(config.secret@, config.expires_in, token.deep_view(), now as nat),
{
    match token {
        None => AuthState::Unauthorized,
        Some(t) => match validate_at(config, t, now) {
            Ok(claims) => AuthState::Authorized(claims),
            Err(e) => AuthState::Forbidden(e),
        },
    }
}

/// The state that a credential amounts to where the clock may have
/// failed: see [`validated_by`].
pub open spec fn decided_by(
    secret: Seq<char>,
    ttl: u64,
    token: Option<Seq<char>>,
    clock: Option<u64>,
) -> AuthStateView {
    match token {
        None => AuthStateView::Unauthorized,
        Some(t) => match validated_by(secret, ttl, t, clock) {
            Ok(claims) => AuthStateView::Authorized(claims),
            Err(e) => AuthStateView::Forbidden(e),
        },
    }
}

/// Decides the state of a request by the machine's clock. Without a
/// credential the state is `Unauthorized`; with one, a faulty
/// configuration and a failure of the signature layer are `Forbidden` for
/// that reason, whatever the clock says; for the rest the state is what
/// [`decided_by`] gives for the clock's reading.
pub fn authenticate(config: &JwtConfig, token: Option<&str>) -> (r: AuthState)
    ensures
        token is None ==> r@ == AuthStateView::Unauthorized,
        token is Some ==> (config_fault(config.secret@, config.expires_in) matches Some(e) ==> r@
            == AuthStateView::Forbidden(e)),
        token is Some && config_fault(config.secret@, config.expires_in) is None ==> (
        hs256_decoded(token->0@, config.secret@) matches Err(e) ==> r@
            == AuthStateView::Forbidden(failure_class(e))),
        exists|clock: Option<u64>|
            r@ == #[trigger] decided_by(
                config.secret@,
                config.expires_in,
                token.deep_view(),
                clock,
            ),
{
    match token {
        None => {
            proof {
                assert(AuthStateView::Unauthorized == decided_by(
                    config.secret@,
                    config.expires_in,
                    token.deep_view(),
                    None,
                ));
            }
            AuthState::Unauthorized
        },
        Some(t) => {
            let checked = verify_token(config, t);
            let ghost clock = choose|clock: Option<u64>|
                validated_view(checked) == #[trigger] validated_by(
                    config.secret@,
                    config.expires_in,
                    t@,
                    clock,
                );
            let state = match checked {
                Ok(claims) => AuthState::Authorized(claims),
                Err(e) => AuthState::Forbidden(e),
            };
            proof {
                assert(state@ == decided_by(
                    config.secret@,
                    config.expires_in,
                    token.deep_view(),
                    clock,
                ));
            }
            state
        },
    }
}

/// What the caller of a forbidden request is told, by the reason: an
/// expired credential asks for a new login, a bad signature is an invalid
/// credential, a malformed token or one for another issuer or audience
/// asks to check the request, a token that is not valid yet asks to wait;
/// any other reason is internal, and no reason at all is a plain refusal.
pub open spec fn forbidden_answer(reason: Option<TokenError>) -> AppErrorView {
    match reason {
        Some(TokenError::Expired) => AppErrorView::Public("凭证已过期，请重新登录"@),
        Some(TokenError::BadSignature) => AppErrorView::Public("凭证无效，请重新登录"@),
        Some(TokenError::Malformed) => AppErrorView::Public("令牌格式错误，请检查请求"@),
        Some(TokenError::BadIssuer) => AppErrorView::Public("令牌格式错误，请检查请求"@),
        Some(TokenError::BadAudience) => AppErrorView::Public("令牌格式错误，请检查请求"@),
        Some(TokenError::NotYetValid) => AppErrorView::Public("令牌尚未生效，请稍后再试"@),
        Some(_) => AppErrorView::Internal("认证处理失败，请联系管理员"@),
        None => AppErrorView::Public("拒绝访问"@),
    }
}

/// The error that answers a forbidden request: see [`forbidden_answer`].
pub fn handle_jwt_auth_error(reason: Option<TokenError>) -> (r: AppError)
    ensures
        r@ == forbidden_answer(reason),
{
    match reason {
        Some(TokenError::Expired) => AppError::Public(String::from_str("凭证已过期，请重新登录")),
        Some(TokenError::BadSignature) => AppError::Public(String::from_str("凭证无效，请重新登录")),
        Some(TokenError::Malformed) => AppError::Public(
            String::from_str("令牌格式错误，请检查请求"),
        ),
        Some(TokenError::BadIssuer) => AppError::Public(
            String::from_str("令牌格式错误，请检查请求"),
        ),
        Some(TokenError::BadAudience) => AppError::Public(
            String::from_str("令牌格式错误，请检查请求"),
        ),
        Some(TokenError::NotYetValid) => AppError::Public(
            String::from_str("令牌尚未生效，请稍后再试"),
        ),
        Some(_) => AppError::Internal(String::from_str("认证处理失败，请联系管理员")),
        None => AppError::Public(String::from_str("拒绝访问")),
    }
}

/// What a state lets a protected handler go on with: the claims, or the
/// error that answers the request.
pub open spec fn admitted(state: AuthStateView) -> Result<ClaimsView, AppErrorView> {
    match state {
        AuthStateView::Authorized(claims) => Ok(claims),
        AuthStateView::Forbidden(e) => Err(forbidden_answer(Some(e))),
        AuthStateView::Unauthorized => Err(AppErrorView::Public("凭证失效，请重新登录"@)),
    }
}

/// The claims of an authorized request, or the error that answers any
/// other.
pub fn require_authorized(state: AuthState) -> (r: Result<Claims, AppError>)
    ensures
        match r {
            Ok(claims) => admitted(state@) == Ok::<ClaimsView, AppErrorView>(claims@),
            Err(e) => admitted(state@) == Err::<ClaimsView, AppErrorView>(e@),
        },
{
    match state {
        AuthState::Authorized(claims) => Ok(claims),
        AuthState::Forbidden(e) => Err(handle_jwt_auth_error(Some(e))),
        AuthState::Unauthorized => Err(AppError::Public(String::from_str("凭证失效，请重新登录"))),
    }
}

/// The HTTP status that a state answers with.
pub fn status_code(state: &AuthState) -> (r: u16)
    ensures
        r == match state@ {
            AuthStateView::Unauthorized => 401u16,
            AuthStateView::Forbidden(_) => 403u16,
            AuthStateView::Authorized(_) => 200u16,
        },
{
    match state {
        AuthState::Unauthorized => 401,
        AuthState::Forbidden(_) => 403,
        AuthState::Authorized(_) => 200,
    }
}

} // verus!
