//! Logging in: from a login request to a fresh access token.

use crate::access_token::{
    issue_at, issue_spec, records_after_issue, validate_spec, TokenRecord, TokenStore,
};
use crate::clock::{clock_now, instant_lt, instant_plus, Instant};
use crate::config::Config;
use crate::credentials::{verify, verify_spec, UserStore, UserView};
use crate::error::AuthError;
use crate::identity::{resolve, resolve_spec, Identity, IdentityView};
use crate::macaroon::TOKEN_TTL_SECS;
use vstd::prelude::*;
use vstd::string::*;

verus! {

/// The login type specified by the user.
#[derive(Clone, Copy, Debug, PartialEq, Eq, Structural)]
pub enum LoginType {
    /// The m.login.password type.
    Password,
}

/// The login type that a name stands for: only `m.login.password` is
/// supported.
pub open spec fn login_type_of(name: Seq<char>) -> Result<LoginType, AuthError> {
    if name == "m.login.password"@ {
        Ok(LoginType::Password)
    } else {
        Err(AuthError::UnsupportedLoginType)
    }
}

impl LoginType {
    /// The login type that a name stands for. Any name but
    /// `m.login.password` fails with `UnsupportedLoginType`.
    pub fn parse(name: &str) -> (result: Result<LoginType, AuthError>)
        ensures
            result == login_type_of(name@),
    {
        let given = String::from_str(name);
        let password = String::from_str("m.login.password");
        if given == password {
            Ok(LoginType::Password)
        } else {
            Err(AuthError::UnsupportedLoginType)
        }
    }

    /// The name of the login type.
    pub fn name(&self) -> (name: &'static str)
        ensures
            login_type_of(name@) == Ok::<LoginType, AuthError>(*self),
    {
        "m.login.password"
    }
}

/// What a login request holds, as plain values.
pub struct LoginRequestView {
    /// The login type being used.
    pub login_type: LoginType,
    /// The fully qualified user ID or just the local part of it.
    pub user: Seq<char>,
    /// The user's password.
    pub password: Seq<char>,
}

/// The body of a login request.
#[derive(Debug)]
pub struct LoginRequest {
    /// The login type being used. Currently only "m.login.password" is supported.
    pub login_type: LoginType,
    /// The fully qualified user ID or just local part of the user ID, to log in.
    pub user: String,
    /// The user's password.
    pub password: String,
}

impl View for LoginRequest {
    type V = LoginRequestView;

    open spec fn view(&self) -> LoginRequestView {
        LoginRequestView {
            login_type: self.login_type,
            user: self.user@,
            password: self.password@,
        }
    }
}

/// The request made of the three fields of a body, where the type is
/// supported.
pub open spec fn login_request_of(login_type: Seq<char>, user: Seq<char>, password: Seq<char>) -> Result<
    LoginRequestView,
    AuthError,
> {
    match login_type_of(login_type) {
        Ok(login_type) => Ok(LoginRequestView { login_type, user, password }),
        Err(error) => Err(error),
    }
}

/// The view of a request or the error in its place.
pub open spec fn login_request_result(result: Result<LoginRequest, AuthError>) -> Result<
    LoginRequestView,
    AuthError,
> {
    match result {
        Ok(request) => Ok(request@),
        Err(error) => Err(error),
    }
}

impl LoginRequest {
    /// The request made of the three fields of a body. Fails with
    /// `UnsupportedLoginType` on any type but `m.login.password`.
    pub fn new(login_type: &str, user: &str, password: &str) -> (result: Result<
        LoginRequest,
        AuthError,
    >)
        ensures
            login_request_result(result) == login_request_of(login_type@, user@, password@),
    {
        match LoginType::parse(login_type) {
            Ok(login_type) => Ok(
                LoginRequest {
                    login_type,
                    user: String::from_str(user),
                    password: String::from_str(password),
                },
            ),
            Err(error) => Err(error),
        }
    }
}

/// What a login response holds, as plain values.
pub struct LoginResponseView {
    /// The value of the access token for the account.
    pub access_token: Seq<char>,
    /// The domain of the server the account is registered on.
    pub home_server: Seq<char>,
    /// The fully qualified identity that logged in.
    pub user_id: IdentityView,
}

/// The body of the response to a login.
#[derive(Debug)]
pub struct LoginResponse {
    /// An access token for the account. This access token can then be used to authorize other requests.
    pub access_token: String,
    /// The hostname of the homeserver on which the account has been registered.
    pub home_server: String,
    /// The fully-qualified Matrix ID that has been registered.
    pub user_id: Identity,
}

impl View for LoginResponse {
    type V = LoginResponseView;

    open spec fn view(&self) -> LoginResponseView {
        LoginResponseView {
            access_token: self.access_token@,
            home_server: self.home_server@,
            user_id: self.user_id@,
        }
    }
}

/// The view of a response or the error in its place.
pub open spec fn login_result(result: Result<LoginResponse, AuthError>) -> Result<
    LoginResponseView,
    AuthError,
> {
    match result {
        Ok(response) => Ok(response@),
        Err(error) => Err(error),
    }
}

/// The identity that a login authenticates: the one the login string
/// resolves to, where its password is the presented one.
pub open spec fn authenticated(
    users: Seq<UserView>,
    request: LoginRequestView,
    domain: Seq<char>,
) -> Result<IdentityView, AuthError> {
    match resolve_spec(request.user, domain) {
        Err(error) => Err(error),
        Ok(identity) => verify_spec(users, identity, request.password),
    }
}

/// The token record that a login at `now` issues.
pub open spec fn login_token(
    users: Seq<UserView>,
    tokens: Seq<TokenRecord>,
    request: LoginRequestView,
    domain: Seq<char>,
    key: Seq<u8>,
    now: Instant,
) -> Result<TokenRecord, AuthError> {
    match authenticated(users, request, domain) {
        Err(error) => Err(error),
        Ok(identity) => issue_spec(tokens, identity, key, TOKEN_TTL_SECS, now),
    }
}

/// The response to a login at `now`.
pub open spec fn login_spec(
    users: Seq<UserView>,
    tokens: Seq<TokenRecord>,
    request: LoginRequestView,
    domain: Seq<char>,
    key: Seq<u8>,
    now: Instant,
) -> Result<LoginResponseView, AuthError> {
    match login_token(users, tokens, request, domain, key, now) {
        Err(error) => Err(error),
        Ok(record) => Ok(
            LoginResponseView {
                access_token: record.value,
                home_server: domain,
                user_id: record.user_id,
            },
        ),
    }
}

/// The `/login` endpoint.
#[derive(Clone, Copy, Debug)]
pub struct Login;

impl Login {
    /// Handles a login request at `now`: resolves the login string, verifies
    /// the password and issues a token that lives for an hour.
    ///
    /// Every login issues a fresh token; on failure no record is written.
    /// The token in the response validates to the identity in the response
    /// at every instant of the hour that follows, and not after it.
    pub fn handle_at(
        &self,
        request: &LoginRequest,
        config: &Config,
        users: &UserStore,
        tokens: &mut TokenStore,
        now: Instant,
    ) -> (result: Result<LoginResponse, AuthError>)
        requires
            users.wf(),
            old(tokens).wf(),
        ensures
            final(tokens).wf(),
            login_result(result) == login_spec(
                users@,
                old(tokens)@,
                request@,
                config.domain@,
                config.macaroon_secret_key@,
                now,
            ),
            final(tokens)@ == records_after_issue(
                old(tokens)@,
                login_token(
                    users@,
                    old(tokens)@,
                    request@,
                    config.domain@,
                    config.macaroon_secret_key@,
                    now,
                ),
            ),
            result matches Ok(response) ==> instant_plus(now, TOKEN_TTL_SECS) matches Some(
                expires_at,
            ) && forall|at: Instant|
                #[trigger] validate_spec(
                    final(tokens)@,
                    response@.access_token,
                    config.macaroon_secret_key@,
                    at,
                ) == if instant_lt(at, expires_at) {
                    Ok::<IdentityView, AuthError>(response@.user_id)
                } else {
                    Err::<IdentityView, AuthError>(AuthError::InvalidToken)
                },
    {
        let user_id = match resolve(request.user.as_str(), config.domain.as_str()) {
            Ok(user_id) => user_id,
            Err(error) => {
                return Err(error);
            },
        };
        let registered = match verify(&user_id, request.password.as_str(), users) {
            Ok(registered) => registered,
            Err(error) => {
                return Err(error);
            },
        };
        let token = match issue_at(
            &registered,
            config.macaroon_secret_key.as_slice(),
            TOKEN_TTL_SECS,
            now,
            tokens,
        ) {
            Ok(token) => token,
            Err(error) => {
                return Err(error);
            },
        };
        Ok(
            LoginResponse {
                access_token: token.value,
                home_server: config.domain.clone(),
                user_id: registered,
            },
        )
    }

    /// Handles a login request as of the clock's current instant.
    pub fn handle(
        &self,
        request: &LoginRequest,
        config: &Config,
        users: &UserStore,
        tokens: &mut TokenStore,
    ) -> (result: Result<LoginResponse, AuthError>)
        requires
            users.wf(),
            old(tokens).wf(),
        ensures
            final(tokens).wf(),
            exists|now: Instant|
                login_result(result) == #[trigger] login_spec(
                    users@,
                    old(tokens)@,
                    request@,
                    config.domain@,
                    config.macaroon_secret_key@,
                    now,
                ) && final(tokens)@ == records_after_issue(
                    old(tokens)@,
                    login_token(
                        users@,
                        old(tokens)@,
                        request@,
                        config.domain@,
                        config.macaroon_secret_key@,
                        now,
                    ),
                ),
    {
        let at = clock_now();
        let result = self.handle_at(request, config, users, tokens, at);
        assert(login_result(result) == login_spec(
            users@,
            old(tokens)@,
            request@,
            config.domain@,
            config.macaroon_secret_key@,
            at,
        ));
        result
    }
}

} // verus!
