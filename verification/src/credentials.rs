//! Credential records, password hashing and the credential verifier.

use crate::encoding::{base64_decoded, base64_text, constant_time_eq, from_base64, to_base64};
use crate::error::AuthError;
use crate::identity::{identity_result_view, Identity, IdentityView};
use vstd::prelude::*;
use vstd::string::*;

verus! {

/// The length of a password digest.
pub const DIGEST_LEN: usize = 32;

/// The length of the salt that registration draws.
pub const SALT_LEN: usize = 16;

/// What a credential record holds, as plain sequences.
pub struct UserView {
    /// The canonical text of the identity.
    pub id: Seq<char>,
    /// The salt the password was hashed with.
    pub salt: Seq<char>,
    /// The Base64 text of the password digest.
    pub password_hash: Seq<char>,
}

/// A credential record: an identity with the hash of its password.
#[derive(Debug)]
pub struct User {
    /// The canonical text of the identity.
    pub id: String,
    /// The salt the password was hashed with.
    pub salt: String,
    /// The Base64 text of the password digest.
    pub password_hash: String,
}

/// A credential record that is not stored yet.
#[derive(Debug)]
pub struct NewUser {
    /// The canonical text of the identity.
    pub id: String,
    /// The salt the password was hashed with.
    pub salt: String,
    /// The Base64 text of the password digest.
    pub password_hash: String,
}

impl View for User {
    type V = UserView;

    open spec fn view(&self) -> UserView {
        UserView { id: self.id@, salt: self.salt@, password_hash: self.password_hash@ }
    }
}

impl View for NewUser {
    type V = UserView;

    open spec fn view(&self) -> UserView {
        UserView { id: self.id@, salt: self.salt@, password_hash: self.password_hash@ }
    }
}

/// The Argon2i digest of a password under a salt, with the default
/// parameters.
pub uninterp spec fn argon2i(password: Seq<char>, salt: Seq<char>) -> Seq<u8>;

/// The inputs that the hashing primitive takes: a salt of at least eight
/// bytes, and neither input longer than 2^32 - 1 bytes.
pub open spec fn hashable(password: Seq<char>, salt: Seq<char>) -> bool {
    &&& 8 <= vstd::utf8::encode_utf8(salt).len() <= 0xffff_ffff
    &&& vstd::utf8::encode_utf8(password).len() <= 0xffff_ffff
}

/// The Base64 text of the digest of a password under a salt.
pub open spec fn password_hash_of(password: Seq<char>, salt: Seq<char>) -> Seq<char> {
    base64_text(argon2i(password, salt))
}

/// Whether a presented password is the one a record was made with: its
/// digest under the record's salt equals the stored digest.
pub open spec fn password_matches(user: UserView, password: Seq<char>) -> bool {
    hashable(password, user.salt) && base64_decoded(user.password_hash) == Some(
        argon2i(password, user.salt),
    )
}

/// Whether every character is an ASCII letter or digit.
pub open spec fn alphanumeric(text: Seq<char>) -> bool {
    forall|i: int|
        0 <= i < text.len() ==> {
            let c = #[trigger] text[i];
            ('0' <= c && c <= '9') || ('a' <= c && c <= 'z') || ('A' <= c && c <= 'Z')
        }
}

/// Trusted: `argon2rs::argon2i_simple`. Claims that the digest is a function
/// of password and salt alone and has thirty-two bytes. The primitive panics
/// on a salt under eight bytes and on inputs over 2^32 - 1 bytes.
#[verifier::external_body]
pub(crate) fn argon2i_digest(password: &str, salt: &str) -> (digest: Vec<u8>)
    requires
        hashable(password@, salt@),
    ensures
        digest@ == argon2i(password@, salt@),
        digest@.len() == DIGEST_LEN,
{
    argon2rs::argon2i_simple(password, salt).to_vec()
}

/// Trusted: `rand::thread_rng` and `Rng::gen_ascii_chars`, of which `length`
/// characters are collected. The text is random; claims only its length and
/// that each character is an ASCII letter or digit. The generator panics
/// only where the operating system yields no randomness to seed it.
#[verifier::external_body]
pub(crate) fn random_ascii(length: usize) -> (text: String)
    ensures
        text@.len() == length,
        alphanumeric(text@),
{
    rand::Rng::gen_ascii_chars(&mut rand::thread_rng()).take(length).collect()
}

/// Whether the hashing primitive takes this password and salt.
pub fn is_hashable(password: &str, salt: &str) -> (ok: bool)
    ensures
        ok == hashable(password@, salt@),
{
    let s = salt.as_bytes().len();
    let p = password.as_bytes().len();
    8 <= s && s <= 0xffff_ffff && p <= 0xffff_ffff
}

/// The Base64 text of the digest of `password` under `salt`, or `None` where
/// the primitive does not take the inputs.
pub fn hash_password(password: &str, salt: &str) -> (hash: Option<String>)
    ensures
        hash.is_some() == hashable(password@, salt@),
        hash matches Some(h) ==> h@ == password_hash_of(password@, salt@) && base64_decoded(h@)
            == Some(argon2i(password@, salt@)),
{
    if !is_hashable(password, salt) {
        return None;
    }
    let digest = argon2i_digest(password, salt);
    to_base64(digest.as_slice())
}

/// Whether a stored hash text holds exactly this digest. The digests are
/// compared without stopping at the first difference.
pub fn digest_matches(stored_hash: &str, digest: &[u8]) -> (same: bool)
    ensures
        same == (base64_decoded(stored_hash@) == Some(digest@)),
{
    match from_base64(stored_hash) {
        Some(stored) => constant_time_eq(stored.as_slice(), digest),
        None => false,
    }
}

impl User {
    /// A copy of the record.
    pub fn duplicate(&self) -> (copy: User)
        ensures
            copy@ == self@,
    {
        User {
            id: self.id.clone(),
            salt: self.salt.clone(),
            password_hash: self.password_hash.clone(),
        }
    }

    /// Whether `password` is the password this record was made with.
    pub fn check_password(&self, password: &str) -> (matches: bool)
        ensures
            matches == password_matches(self@, password@),
    {
        if !is_hashable(password, self.salt.as_str()) {
            return false;
        }
        let digest = argon2i_digest(password, self.salt.as_str());
        digest_matches(self.password_hash.as_str(), digest.as_slice())
    }
}

/// The views of a list of records.
pub open spec fn user_views(list: Seq<User>) -> Seq<UserView> {
    Seq::new(list.len(), |i: int| list[i]@)
}

/// No two records share an identity.
pub open spec fn distinct_ids(users: Seq<UserView>) -> bool {
    forall|i: int, j: int|
        0 <= i < j < users.len() ==> (#[trigger] users[i]).id != (#[trigger] users[j]).id
}

/// Whether a record for `id` exists.
pub open spec fn has_user(users: Seq<UserView>, id: Seq<char>) -> bool {
    exists|i: int| 0 <= i < users.len() && (#[trigger] users[i]).id == id
}

/// The record for `id`, where one exists.
pub open spec fn lookup_user(users: Seq<UserView>, id: Seq<char>) -> Option<UserView> {
    if has_user(users, id) {
        Some(users[choose|i: int| 0 <= i < users.len() && (#[trigger] users[i]).id == id])
    } else {
        None
    }
}

/// The view of an optional record.
pub open spec fn user_option_view(user: Option<User>) -> Option<UserView> {
    match user {
        Some(user) => Some(user@),
        None => None,
    }
}

/// The outcome of verifying `password` for `identity` against the records.
pub open spec fn verify_spec(users: Seq<UserView>, identity: IdentityView, password: Seq<char>) -> Result<
    IdentityView,
    AuthError,
> {
    match lookup_user(users, identity.text) {
        None => Err(AuthError::UnknownIdentity),
        Some(user) => if password_matches(user, password) {
            Ok(identity)
        } else {
            Err(AuthError::InvalidCredentials)
        },
    }
}

/// The credential records of a server, one per identity.
pub struct UserStore {
    users: Vec<User>,
}

impl View for UserStore {
    type V = Seq<UserView>;

    closed spec fn view(&self) -> Seq<UserView> {
        user_views(self.users@)
    }
}

impl UserStore {
    /// The store's invariant: no two records share an identity.
    pub open spec fn wf(&self) -> bool {
        distinct_ids(self@)
    }

    /// A store without records.
    pub fn new() -> (store: UserStore)
        ensures
            store.wf(),
            store@ == Seq::<UserView>::empty(),
    {
        let store = UserStore { users: Vec::new() };
        assert(store@ =~= Seq::<UserView>::empty());
        store
    }

    /// The number of records.
    pub fn len(&self) -> (count: usize)
        ensures
            count == self@.len(),
    {
        self.users.len()
    }

    /// The record for `id`, where one exists.
    pub fn find(&self, id: &str) -> (user: Option<User>)
        requires
            self.wf(),
        ensures
            user_option_view(user) == lookup_user(self@, id@),
    {
        let wanted = String::from_str(id);
        let mut i: usize = 0;
        while i < self.users.len()
            invariant
                i <= self.users@.len(),
                wanted@ == id@,
                distinct_ids(user_views(self.users@)),
                forall|k: int| 0 <= k < i ==> (#[trigger] user_views(self.users@)[k]).id != id@,
            decreases self.users@.len() - i,
        {
            if self.users[i].id == wanted {
                let found = self.users[i].duplicate();
                proof {
                    let users = user_views(self.users@);
                    assert(users[i as int].id == id@);
                    let c = choose|k: int| 0 <= k < users.len() && (#[trigger] users[k]).id == id@;
                    assert(c == i) by {
                        if c < i {
                            assert(users[c].id != users[i as int].id);
                        } else if c > i {
                            assert(users[i as int].id != users[c].id);
                        }
                    }
                }
                return Some(found);
            }
            i = i + 1;
        }
        None
    }

    /// Stores a new record. Fails with `StorageError`, and leaves the store
    /// as it was, where a record for the same identity exists.
    pub fn insert(&mut self, new_user: NewUser) -> (result: Result<User, AuthError>)
        requires
            old(self).wf(),
        ensures
            final(self).wf(),
            has_user(old(self)@, new_user@.id) ==> result == Err::<User, AuthError>(
                AuthError::StorageError,
            ) && final(self)@ == old(self)@,
            !has_user(old(self)@, new_user@.id) ==> (result matches Ok(user) && user@ == new_user@)
                && final(self)@ == old(self)@.push(new_user@),
    {
        let existing = self.find(new_user.id.as_str());
        if existing.is_some() {
            return Err(AuthError::StorageError);
        }
        let user = User { id: new_user.id, salt: new_user.salt, password_hash: new_user.password_hash };
        let copy = user.duplicate();
        let ghost before = user_views(self.users@);
        self.users.push(user);
        proof {
            let after = user_views(self.users@);
            assert(after =~= before.push(copy@));
            assert forall|i: int, j: int| 0 <= i < j < after.len() implies (#[trigger] after[i]).id
                != (#[trigger] after[j]).id by {
                if j < before.len() {
                    assert(before[i].id != before[j].id);
                } else {
                    assert(before[i].id != copy@.id);
                }
            }
        }
        Ok(copy)
    }
}

/// Verifies a presented password for an identity against its credential
/// record.
///
/// Fails with `UnknownIdentity` where the store holds no record for the
/// identity, and with `InvalidCredentials` where the digest of the presented
/// password differs from the stored one.
pub fn verify(identity: &Identity, presented_password: &str, users: &UserStore) -> (result: Result<
    Identity,
    AuthError,
>)
    requires
        users.wf(),
    ensures
        identity_result_view(result) == verify_spec(users@, identity@, presented_password@),
{
    match users.find(identity.as_str()) {
        None => Err(AuthError::UnknownIdentity),
        Some(user) => {
            if user.check_password(presented_password) {
                Ok(identity.duplicate())
            } else {
                Err(AuthError::InvalidCredentials)
            }
        },
    }
}

} // verus!
