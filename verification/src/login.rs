//! Logging in: the active account of the username, the password check,
//! the account's roles, and a fresh token.

use vstd::prelude::*;
use vstd::string::StringExecFns;
use crate::config::JwtConfig;
use crate::error::{AppError, AppErrorView, internal_error, unexpected, unexpected_reply};
use crate::password::{verified, verify_password};
use crate::protocol::{Credentials, CredentialsView, Reply, ReplyView, Request, RequestView, Step, StepView};
use crate::token::{
    issue_at, issued, joined, token_error_text, validated, ClaimsView, TokenError,
};

verus! {

/// What a successful login hands out.
#[derive(Debug, PartialEq, Eq)]
pub struct LoginResponse {
    pub user_id: i64,
    pub username: String,
    /// The bearer token.
    pub token: String,
    /// The moment the token expires, in seconds since the epoch.
    pub exp: u64,
}

/// The mathematical content of [`LoginResponse`].
pub ghost struct LoginResponseView {
    pub user_id: i64,
    pub username: Seq<char>,
    pub token: Seq<char>,
    pub exp: nat,
}

impl View for LoginResponse {
    type V = LoginResponseView;

    open spec fn view(&self) -> LoginResponseView {
        LoginResponseView {
            user_id: self.user_id,
            username: self.username@,
            token: self.token@,
            exp: self.exp as nat,
        }
    }
}

impl DeepView for LoginResponse {
    type V = LoginResponseView;

    open spec fn deep_view(&self) -> LoginResponseView {
        self@
    }
}

/// The cookie that carries the token from a login on.
#[derive(Debug, Clone, PartialEq, Eq)]
pub struct TokenCookie {
    pub name: String,
    pub value: String,
    pub path: String,
    pub http_only: bool,
}

/// The name of the cookie that carries the token.
pub open spec fn cookie_name() -> Seq<char> {
    "jwt_token"@
}

impl LoginResponse {
    /// The cookie to set after the login: the token under the name
    /// `jwt_token`, for every path, out of the reach of scripts.
    pub fn cookie(&self) -> (r: TokenCookie)
        ensures
            r.name@ == cookie_name(),
            r.value@ == self.token@,
            r.path@ == "/"@,
            r.http_only,
    {
        TokenCookie {
            name: String::from_str("jwt_token"),
            value: self.token.clone(),
            path: String::from_str("/"),
            http_only: true,
        }
    }
}

/// Where a login stands: the request whose reply it waits for.
#[derive(Debug, Clone, Copy, PartialEq, Eq, Structural)]
pub enum LoginPhase {
    /// The active account of the username.
    Lookup,
    /// The account's roles.
    Roles,
    /// Nothing: the login is over.
    Done,
}

/// The mathematical content of a running login.
pub ghost struct LoginView {
    pub secret: Seq<char>,
    pub ttl: u64,
    pub username: Seq<char>,
    pub password: Seq<char>,
    pub now: u64,
    pub phase: LoginPhase,
    pub account: Option<CredentialsView>,
}

/// The one answer to an unknown or frozen username and to a wrong
/// password.
pub open spec fn bad_credentials() -> AppErrorView {
    AppErrorView::Public("用户名或密码错误"@)
}

impl LoginView {
    /// The state a login starts in.
    pub open spec fn initial(
        secret: Seq<char>,
        ttl: u64,
        username: Seq<char>,
        password: Seq<char>,
        now: u64,
    ) -> LoginView {
        LoginView { secret, ttl, username, password, now, phase: LoginPhase::Lookup, account: None }
    }

    /// What every state that `initial` and `login_step` reach satisfies.
    pub open spec fn wf(self) -> bool {
        self.phase is Roles ==> self.account is Some
    }

    /// Ends with `result`.
    pub open spec fn finish(self, result: Result<LoginResponseView, AppErrorView>) -> (
        LoginView,
        StepView<LoginResponseView>,
    ) {
        (LoginView { phase: LoginPhase::Done, account: None, ..self }, StepView::Finish(result))
    }
}

/// Whether the response's token stands for what the response says: at
/// every moment before the response's expiry it validates to claims with
/// the response's id, name and expiry and the joined role names `role`, and
/// from the expiry on it is `Expired`.
pub open spec fn token_stands(
    secret: Seq<char>,
    ttl: u64,
    response: LoginResponseView,
    role: Seq<char>,
) -> bool {
    forall|later: nat|
        #[trigger] validated(secret, ttl, response.token, later) == if later < response.exp {
            Ok::<ClaimsView, TokenError>(
                ClaimsView {
                    user_id: response.user_id as int,
                    username: response.username,
                    role,
                    exp: response.exp,
                },
            )
        } else {
            Err::<ClaimsView, TokenError>(TokenError::Expired)
        }
}

/// The login's next state and step on `reply`.
///
/// No account and a password that does not match get the same answer; a
/// stored hash that cannot be read is an internal error, whose detail the
/// caller never sees. The token is issued at the moment the login started with, for the id and
/// the name of the account found and the roles just read; the response
/// gives the token's own expiry.
pub open spec fn login_step(s: LoginView, reply: ReplyView) -> (LoginView, StepView<LoginResponseView>) {
    match s.phase {
        LoginPhase::Lookup => match reply {
            ReplyView::Found(Some(account)) => match verified(s.password, account.password_hash) {
                Ok(true) => (
                    LoginView { phase: LoginPhase::Roles, account: Some(account), ..s },
                    StepView::Ask(RequestView::RolesOf { admin_id: account.id }),
                ),
                Ok(false) => s.finish(Err(bad_credentials())),
                Err(why) => s.finish(Err(AppErrorView::Internal("密码验证失败: "@ + why))),
            },
            ReplyView::Found(None) => s.finish(Err(bad_credentials())),
            ReplyView::Failed(why) => s.finish(Err(AppErrorView::Internal("查询用户失败: "@ + why))),
            _ => s.finish(Err(unexpected_reply())),
        },
        LoginPhase::Roles => match reply {
            ReplyView::Roles(roles) => {
                let account = s.account->0;
                match issued(s.secret, s.ttl, account.id, account.username, roles, s.now) {
                    Ok(token) => s.finish(
                        Ok(
                            LoginResponseView {
                                user_id: account.id,
                                username: account.username,
                                token,
                                exp: (s.now + s.ttl) as nat,
                            },
                        ),
                    ),
                    Err(e) => s.finish(
                        Err(AppErrorView::Internal("生成令牌失败: "@ + token_error_text(e))),
                    ),
                }
            },
            ReplyView::Failed(why) => s.finish(
                Err(AppErrorView::Internal("查询用户角色失败: "@ + why)),
            ),
            _ => s.finish(Err(unexpected_reply())),
        },
        LoginPhase::Done => s.finish(Err(unexpected_reply())),
    }
}

/// A running login.
#[derive(Debug)]
pub struct Login {
    config: JwtConfig,
    username: String,
    password: String,
    now: u64,
    phase: LoginPhase,
    account: Option<Credentials>,
}

impl View for Login {
    type V = LoginView;

    closed spec fn view(&self) -> LoginView {
        LoginView {
            secret: self.config.secret@,
            ttl: self.config.expires_in,
            username: self.username@,
            password: self.password@,
            now: self.now,
            phase: self.phase,
            account: self.account.deep_view(),
        }
    }
}

fn refused() -> (r: AppError)
    ensures
        r@ == bad_credentials(),
{
    AppError::Public(String::from_str("用户名或密码错误"))
}

impl Login {
    #[verifier::type_invariant]
    spec fn inv(self) -> bool {
        self@.wf()
    }

    /// Starts a login at the moment `now`: the first request looks the
    /// username up among the active accounts.
    pub fn start(config: JwtConfig, username: String, password: String, now: u64) -> (r: (
        Login,
        Request,
    ))
        ensures
            r.0@ == LoginView::initial(
                config.secret@,
                config.expires_in,
                username@,
                password@,
                now,
            ),
            r.1@ == (RequestView::FindActiveByUsername { username: username@ }),
            r.0@.wf(),
    {
        let request = Request::FindActiveByUsername { username: username.clone() };
        (Login { config, username, password, now, phase: LoginPhase::Lookup, account: None }, request)
    }

    fn finish(self, result: Result<LoginResponse, AppError>) -> (r: (Login, Step<LoginResponse>))
        ensures
            (r.0@, r.1@) == self@.finish(
                match result {
                    Ok(v) => Ok(v@),
                    Err(e) => Err(e@),
                },
            ),
    {
        (Login { phase: LoginPhase::Done, account: None, ..self }, Step::Finish(result))
    }

    /// Takes the reply to the last request and gives the next step. A
    /// response that comes out holds a token that stands for it, with the
    /// roles of the reply.
    pub fn advance(self, reply: Reply) -> (r: (Login, Step<LoginResponse>))
        ensures
            (r.0@, r.1@) == login_step(self@, reply@),
            self@.wf() && r.0@.wf(),
            r.1 matches Step::Finish(Ok(response)) ==> reply@ matches ReplyView::Roles(roles)
                && token_stands(self@.secret, self@.ttl, response@, joined(roles)),
    {
        proof {
            use_type_invariant(&self);
        }
        match self.phase {
            LoginPhase::Lookup => match reply {
                Reply::Found(Some(account)) => {
                    match verify_password(self.password.as_str(), account.password_hash.as_str()) {
                        Ok(true) => {
                            let request = Request::RolesOf { admin_id: account.id };
                            (
                                Login { phase: LoginPhase::Roles, account: Some(account), ..self },
                                Step::Ask(request),
                            )
                        },
                        Ok(false) => self.finish(Err(refused())),
                        Err(e) => self.finish(
                            Err(internal_error("密码验证失败: ", e.message.as_str())),
                        ),
                    }
                },
                Reply::Found(None) => self.finish(Err(refused())),
                Reply::Failed(why) => self.finish(
                    Err(internal_error("查询用户失败: ", why.as_str())),
                ),
                _ => self.finish(Err(unexpected())),
            },
            LoginPhase::Roles => match reply {
                Reply::Roles(roles) => {
                    let Login { config, username, password, now, phase: _, account } = self;
                    let account = match account {
                        Some(a) => a,
                        None => Credentials {
                            id: 0,
                            username: String::new(),
                            password_hash: String::new(),
                        },
                    };
                    let issued_token = issue_at(
                        &config,
                        account.id,
                        account.username.as_str(),
                        &roles,
                        now,
                    );
                    proof {
                        assert(crate::token::views_of(roles@) =~= roles.deep_view());
                    }
                    let result = match issued_token {
                        Ok(token) => Ok(
                            LoginResponse {
                                user_id: account.id,
                                username: account.username,
                                token,
                                exp: now + config.expires_in,
                            },
                        ),
                        Err(e) => Err(internal_error("生成令牌失败: ", e.message().as_str())),
                    };
                    (
                        Login {
                            config,
                            username,
                            password,
                            now,
                            phase: LoginPhase::Done,
                            account: None,
                        },
                        Step::Finish(result),
                    )
                },
                Reply::Failed(why) => self.finish(
                    Err(internal_error("查询用户角色失败: ", why.as_str())),
                ),
                _ => self.finish(Err(unexpected())),
            },
            LoginPhase::Done => self.finish(Err(unexpected())),
        }
    }
}

} // verus!
