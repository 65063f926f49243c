//! Registering: from a registration request to a credential record.

use crate::config::Config;
use crate::credentials::{
    alphanumeric, distinct_ids, has_user, hash_password, hashable, lookup_user, password_hash_of,
    random_ascii, verify_spec, NewUser, UserStore, UserView, SALT_LEN,
};
use crate::error::AuthError;
use crate::identity::{resolve, resolve_spec, IdentityView};
use vstd::prelude::*;
use vstd::string::*;

verus! {

/// The length of the user name that is drawn where a request names none.
pub const GENERATED_NAME_LEN: usize = 12;

/// What a registration request holds, as plain values.
pub struct RegistrationRequestView {
    /// Whether to bind the e-mail address used for authentication.
    pub bind_email: Option<bool>,
    /// The desired password.
    pub password: Seq<char>,
    /// The desired local part of the identity, where the client names one.
    pub username: Option<Seq<char>>,
}

/// The body of a registration request.
#[derive(Debug)]
pub struct RegistrationRequest {
    /// Whether to bind the e-mail address used for authentication.
    pub bind_email: Option<bool>,
    /// The desired password.
    pub password: String,
    /// The desired local part of the identity, where the client names one.
    pub username: Option<String>,
}

impl View for RegistrationRequest {
    type V = RegistrationRequestView;

    open spec fn view(&self) -> RegistrationRequestView {
        RegistrationRequestView {
            bind_email: self.bind_email,
            password: self.password@,
            username: match self.username {
                Some(name) => Some(name@),
                None => None,
            },
        }
    }
}

/// The body of the response to a registration.
#[derive(Debug)]
pub struct RegistrationResponse {
    /// The canonical text of the identity that was registered.
    pub user_id: String,
}

/// The user name that a registration goes by: the requested one, or the
/// generated one where the request names none.
pub open spec fn chosen_name(request: RegistrationRequestView, generated: Seq<char>) -> Seq<char> {
    match request.username {
        Some(name) => name,
        None => generated,
    }
}

/// The credential record that a registration stores, given the name and the
/// salt that were drawn for it.
pub open spec fn register_spec(
    users: Seq<UserView>,
    request: RegistrationRequestView,
    domain: Seq<char>,
    generated: Seq<char>,
    salt: Seq<char>,
) -> Result<UserView, AuthError> {
    match resolve_spec(chosen_name(request, generated), domain) {
        Err(error) => Err(error),
        Ok(identity) => if !hashable(request.password, salt) {
            Err(AuthError::CryptoError)
        } else if has_user(users, identity.text) {
            Err(AuthError::StorageError)
        } else {
            Ok(
                UserView {
                    id: identity.text,
                    salt,
                    password_hash: password_hash_of(request.password, salt),
                },
            )
        },
    }
}

/// The records after a registration returned `outcome`.
pub open spec fn users_after_register(users: Seq<UserView>, outcome: Result<UserView, AuthError>) -> Seq<
    UserView,
> {
    match outcome {
        Ok(user) => users.push(user),
        Err(_) => users,
    }
}

/// The user id of a response or the error in its place.
pub open spec fn registration_result(result: Result<RegistrationResponse, AuthError>) -> Result<
    Seq<char>,
    AuthError,
> {
    match result {
        Ok(response) => Ok(response.user_id@),
        Err(error) => Err(error),
    }
}

/// The user id of a stored record or the error in its place.
pub open spec fn registered_id(outcome: Result<UserView, AuthError>) -> Result<
    Seq<char>,
    AuthError,
> {
    match outcome {
        Ok(user) => Ok(user.id),
        Err(error) => Err(error),
    }
}

/// The last record of a store with distinct identities is found by its
/// identity.
pub proof fn lemma_last_user_found(users: Seq<UserView>)
    requires
        distinct_ids(users),
        users.len() > 0,
    ensures
        lookup_user(users, users.last().id) == Some(users.last()),
{
    let last = users.len() - 1;
    let id = users[last].id;
    assert(users[last].id == id);
    let c = choose|i: int| 0 <= i < users.len() && (#[trigger] users[i]).id == id;
    if c < last {
        assert(users[c].id != users[last].id);
    }
}

/// The `/register` endpoint.
#[derive(Clone, Copy, Debug)]
pub struct Register;

impl Register {
    /// Handles a registration request with the name and the salt that were
    /// drawn for it: resolves the user name to an identity of this server,
    /// hashes the password and stores the credential record.
    ///
    /// Fails with the resolver's error on an invalid or foreign name, with
    /// `CryptoError` where the password cannot be hashed under the salt, and
    /// with `StorageError` where the identity is registered already. On
    /// failure nothing is stored. Once registered, the identity verifies
    /// with the password of the request.
    pub fn handle_with(
        &self,
        request: &RegistrationRequest,
        config: &Config,
        users: &mut UserStore,
        generated_name: &str,
        salt: &str,
    ) -> (result: Result<RegistrationResponse, AuthError>)
        requires
            old(users).wf(),
        ensures
            final(users).wf(),
            registration_result(result) == registered_id(
                register_spec(old(users)@, request@, config.domain@, generated_name@, salt@),
            ),
            final(users)@ == users_after_register(
                old(users)@,
                register_spec(old(users)@, request@, config.domain@, generated_name@, salt@),
            ),
            result is Ok ==> (resolve_spec(
                chosen_name(request@, generated_name@),
                config.domain@,
            ) matches Ok(identity) && verify_spec(final(users)@, identity, request@.password) == Ok::<
                IdentityView,
                AuthError,
            >(identity)),
    {
        let identity = match &request.username {
            Some(name) => resolve(name.as_str(), config.domain.as_str()),
            None => resolve(generated_name, config.domain.as_str()),
        };
        let identity = match identity {
            Ok(identity) => identity,
            Err(error) => {
                return Err(error);
            },
        };
        let password_hash = match hash_password(request.password.as_str(), salt) {
            Some(password_hash) => password_hash,
            None => {
                return Err(AuthError::CryptoError);
            },
        };
        let new_user = NewUser {
            id: identity.text.clone(),
            salt: String::from_str(salt),
            password_hash,
        };
        match users.insert(new_user) {
            Ok(user) => {
                proof {
                    lemma_last_user_found(users@);
                }
                Ok(RegistrationResponse { user_id: user.id })
            },
            Err(error) => Err(error),
        }
    }

    /// Handles a registration request. Where the request names no user, a
    /// name of twelve random letters and digits is drawn; the salt is drawn
    /// afresh for every record.
    pub fn handle(&self, request: &RegistrationRequest, config: &Config, users: &mut UserStore) -> (result:
        Result<RegistrationResponse, AuthError>)
        requires
            old(users).wf(),
        ensures
            final(users).wf(),
            exists|generated: Seq<char>, salt: Seq<char>|
                generated.len() == GENERATED_NAME_LEN && alphanumeric(generated) && salt.len()
                    == SALT_LEN && alphanumeric(salt) && registration_result(result)
                    == registered_id(
                    #[trigger] register_spec(
                        old(users)@,
                        request@,
                        config.domain@,
                        generated,
                        salt,
                    ),
                ) && final(users)@ == users_after_register(
                    old(users)@,
                    register_spec(old(users)@, request@, config.domain@, generated, salt),
                ),
    {
        let generated = random_ascii(GENERATED_NAME_LEN);
        let salt = random_ascii(SALT_LEN);
        let result = self.handle_with(request, config, users, generated.as_str(), salt.as_str());
        assert(registration_result(result) == registered_id(
            register_spec(old(users)@, request@, config.domain@, generated@, salt@),
        ));
        result
    }
}

} // verus!
