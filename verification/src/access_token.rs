//! Access tokens and their records: issuing, validating and revoking.

use crate::clock::{clock_now, instant_lt, instant_plus, Instant};
use crate::error::AuthError;
use crate::identity::{identity_result_view, Identity, IdentityView};
use crate::bytes::bytes_equal;
use crate::macaroon::{grants, mint, mint_spec, token_grants, TOKEN_TTL_SECS};
use vstd::prelude::*;
use vstd::string::*;

verus! {

/// What a token record holds, as plain values.
pub struct TokenRecord {
    /// The record's number, counted from one in the order of issuance.
    pub id: int,
    /// The identity the token is bound to.
    pub user_id: IdentityView,
    /// The token's value: the only thing a client ever holds.
    pub value: Seq<char>,
    /// Whether the token was revoked.
    pub revoked: bool,
    /// When the token was issued.
    pub created_at: Instant,
    /// When the record was last changed.
    pub updated_at: Instant,
}

/// A user access token.
#[derive(Debug)]
pub struct AccessToken {
    /// The access token's ID.
    pub id: i64,
    /// The ID of the user who owns the access token.
    pub user_id: Identity,
    /// The value of the access token: a Base64-encoded macaroon.
    pub value: String,
    /// Whether or not the access token has been revoked.
    pub revoked: bool,
    /// The time the access token was created.
    pub created_at: Instant,
    /// The time the access token was last modified.
    pub updated_at: Instant,
}

/// A new access token, not yet saved.
#[derive(Debug)]
pub struct NewAccessToken {
    /// The ID of the user who owns the access token.
    pub user_id: Identity,
    /// The value of the access token: a Base64-encoded macaroon.
    pub value: String,
}

impl View for AccessToken {
    type V = TokenRecord;

    open spec fn view(&self) -> TokenRecord {
        TokenRecord {
            id: self.id as int,
            user_id: self.user_id@,
            value: self.value@,
            revoked: self.revoked,
            created_at: self.created_at,
            updated_at: self.updated_at,
        }
    }
}

/// The views of a list of tokens.
pub open spec fn token_records(list: Seq<AccessToken>) -> Seq<TokenRecord> {
    Seq::new(list.len(), |i: int| list[i]@)
}

/// No two records share a value.
pub open spec fn distinct_values(tokens: Seq<TokenRecord>) -> bool {
    forall|i: int, j: int|
        0 <= i < j < tokens.len() ==> (#[trigger] tokens[i]).value != (#[trigger] tokens[j]).value
}

/// Records are numbered from one in the order of issuance.
pub open spec fn numbered(tokens: Seq<TokenRecord>) -> bool {
    forall|i: int| 0 <= i < tokens.len() ==> (#[trigger] tokens[i]).id == i + 1
}

/// The invariant of a run of token records.
pub open spec fn records_wf(tokens: Seq<TokenRecord>) -> bool {
    distinct_values(tokens) && numbered(tokens) && tokens.len() < i64::MAX
}

/// Whether some record holds `value`, revoked or not.
pub open spec fn has_value(tokens: Seq<TokenRecord>, value: Seq<char>) -> bool {
    exists|i: int| 0 <= i < tokens.len() && (#[trigger] tokens[i]).value == value
}

/// Whether a record that is not revoked holds `value`.
pub open spec fn is_live(tokens: Seq<TokenRecord>, value: Seq<char>) -> bool {
    exists|i: int|
        0 <= i < tokens.len() && (#[trigger] tokens[i]).value == value && !tokens[i].revoked
}

/// The record that holds `value` and is not revoked, where there is one.
pub open spec fn find_valid(tokens: Seq<TokenRecord>, value: Seq<char>) -> Option<TokenRecord> {
    if is_live(tokens, value) {
        Some(
            tokens[choose|i: int|
                0 <= i < tokens.len() && (#[trigger] tokens[i]).value == value
                    && !tokens[i].revoked],
        )
    } else {
        None
    }
}

/// The record that issuance at `at` adds to `tokens`.
pub open spec fn fresh_record(
    tokens: Seq<TokenRecord>,
    user_id: IdentityView,
    value: Seq<char>,
    at: Instant,
) -> TokenRecord {
    TokenRecord {
        id: tokens.len() as int + 1,
        user_id,
        value,
        revoked: false,
        created_at: at,
        updated_at: at,
    }
}

/// Whether the store takes a new record with `value`: the value is new and
/// the numbering has room.
pub open spec fn insertable(tokens: Seq<TokenRecord>, value: Seq<char>) -> bool {
    !has_value(tokens, value) && tokens.len() + 1 < i64::MAX
}

/// Whether `tokens` holds a record numbered `id`.
pub open spec fn has_id(tokens: Seq<TokenRecord>, id: int) -> bool {
    1 <= id <= tokens.len()
}

/// The records after the one numbered `id` was revoked at `at`. A record
/// that is already revoked stays as it is.
pub open spec fn revoked_records(tokens: Seq<TokenRecord>, id: int, at: Instant) -> Seq<
    TokenRecord,
> {
    if has_id(tokens, id) && !tokens[id - 1].revoked {
        tokens.update(
            id - 1,
            TokenRecord { revoked: true, updated_at: at, ..tokens[id - 1] },
        )
    } else {
        tokens
    }
}

/// The view of an optional token.
pub open spec fn record_option(token: Option<AccessToken>) -> Option<TokenRecord> {
    match token {
        Some(token) => Some(token@),
        None => None,
    }
}

/// The view of an issued token or the error in its place.
pub open spec fn record_result(result: Result<AccessToken, AuthError>) -> Result<
    TokenRecord,
    AuthError,
> {
    match result {
        Ok(token) => Ok(token@),
        Err(error) => Err(error),
    }
}

/// What issuance returns, given the outcome of minting the value.
pub open spec fn issue_outcome(
    tokens: Seq<TokenRecord>,
    user_id: IdentityView,
    minted: Result<Seq<char>, AuthError>,
    at: Instant,
) -> Result<TokenRecord, AuthError> {
    match minted {
        Err(error) => Err(error),
        Ok(value) => if insertable(tokens, value) {
            Ok(fresh_record(tokens, user_id, value, at))
        } else {
            Err(AuthError::StorageError)
        },
    }
}

/// The value of the token that issuance at `now` mints.
pub open spec fn issue_value(user_id: IdentityView, key: Seq<u8>, ttl_secs: i64, now: Instant) -> Result<
    Seq<char>,
    AuthError,
> {
    match instant_plus(now, ttl_secs) {
        None => Err(AuthError::ClockError),
        Some(expires_at) => mint_spec(user_id.text, key, expires_at),
    }
}

/// What issuance at `now` returns.
pub open spec fn issue_spec(
    tokens: Seq<TokenRecord>,
    user_id: IdentityView,
    key: Seq<u8>,
    ttl_secs: i64,
    now: Instant,
) -> Result<TokenRecord, AuthError> {
    issue_outcome(tokens, user_id, issue_value(user_id, key, ttl_secs, now), now)
}

/// The records after issuance returned `outcome`.
pub open spec fn records_after_issue(
    tokens: Seq<TokenRecord>,
    outcome: Result<TokenRecord, AuthError>,
) -> Seq<TokenRecord> {
    match outcome {
        Ok(record) => tokens.push(record),
        Err(_) => tokens,
    }
}

/// What validation of `value` at `now` returns: the identity of the live
/// record that holds the value, where the token behind the value is
/// authentic under `key`, has exactly the caveats of an access token, has not
/// expired, and names that identity.
pub open spec fn validate_spec(
    tokens: Seq<TokenRecord>,
    value: Seq<char>,
    key: Seq<u8>,
    now: Instant,
) -> Result<IdentityView, AuthError> {
    match find_valid(tokens, value) {
        None => Err(AuthError::InvalidToken),
        Some(record) => match token_grants(value, key, now) {
            None => Err(AuthError::InvalidToken),
            Some(user) => if user == vstd::utf8::encode_utf8(record.user_id.text) {
                Ok(record.user_id)
            } else {
                Err(AuthError::IntegrityError)
            },
        },
    }
}

impl AccessToken {
    /// A copy of the token record.
    pub fn duplicate(&self) -> (copy: AccessToken)
        ensures
            copy@ == self@,
    {
        AccessToken {
            id: self.id,
            user_id: self.user_id.duplicate(),
            value: self.value.clone(),
            revoked: self.revoked,
            created_at: self.created_at,
            updated_at: self.updated_at,
        }
    }
}

/// The durable record of every token ever issued. Records are never
/// removed, and a revoked record never becomes valid again.
pub struct TokenStore {
    tokens: Vec<AccessToken>,
}

impl View for TokenStore {
    type V = Seq<TokenRecord>;

    closed spec fn view(&self) -> Seq<TokenRecord> {
        token_records(self.tokens@)
    }
}

impl TokenStore {
    /// The store's invariant: values are unique and records are numbered
    /// from one.
    pub open spec fn wf(&self) -> bool {
        records_wf(self@)
    }

    /// A store without records.
    pub fn new() -> (store: TokenStore)
        ensures
            store.wf(),
            store@ == Seq::<TokenRecord>::empty(),
    {
        let store = TokenStore { tokens: Vec::new() };
        assert(store@ =~= Seq::<TokenRecord>::empty());
        store
    }

    /// The number of records.
    pub fn len(&self) -> (count: usize)
        ensures
            count == self@.len(),
    {
        self.tokens.len()
    }

    /// Whether some record holds `value`, revoked or not.
    pub fn contains_value(&self, value: &str) -> (held: bool)
        ensures
            held == has_value(self@, value@),
    {
        let wanted = String::from_str(value);
        let mut i: usize = 0;
        while i < self.tokens.len()
            invariant
                i <= self.tokens@.len(),
                wanted@ == value@,
                forall|k: int|
                    0 <= k < i ==> (#[trigger] token_records(self.tokens@)[k]).value != value@,
            decreases self.tokens@.len() - i,
        {
            if self.tokens[i].value == wanted {
                assert(token_records(self.tokens@)[i as int].value == value@);
                return true;
            }
            i = i + 1;
        }
        false
    }

    /// The record that holds `value` and is not revoked, where there is one.
    pub fn find_valid(&self, value: &str) -> (token: Option<AccessToken>)
        requires
            self.wf(),
        ensures
            record_option(token) == find_valid(self@, value@),
    {
        let wanted = String::from_str(value);
        let ghost records = token_records(self.tokens@);
        let mut i: usize = 0;
        while i < self.tokens.len()
            invariant
                i <= self.tokens@.len(),
                wanted@ == value@,
                records == token_records(self.tokens@),
                distinct_values(records),
                forall|k: int|
                    0 <= k < i ==> !((#[trigger] records[k]).value == value@ && !records[k].revoked),
            decreases self.tokens@.len() - i,
        {
            if self.tokens[i].value == wanted && !self.tokens[i].revoked {
                let found = self.tokens[i].duplicate();
                proof {
                    assert(records[i as int].value == value@ && !records[i as int].revoked);
                    let c = choose|k: int|
                        0 <= k < records.len() && (#[trigger] records[k]).value == value@
                            && !records[k].revoked;
                    assert(c == i) by {
                        if c < i {
                            assert(records[c].value != records[i as int].value);
                        } else if c > i {
                            assert(records[i as int].value != records[c].value);
                        }
                    }
                }
                return Some(found);
            }
            i = i + 1;
        }
        None
    }

    /// Stores a new record for a token issued at `at`, and returns it.
    ///
    /// Fails with `StorageError`, and leaves the store as it was, where a
    /// record already holds the value or the numbering is exhausted.
    pub fn insert(&mut self, new_token: NewAccessToken, at: Instant) -> (result: Result<
        AccessToken,
        AuthError,
    >)
        requires
            old(self).wf(),
        ensures
            final(self).wf(),
            record_result(result) == issue_outcome(
                old(self)@,
                new_token.user_id@,
                Ok(new_token.value@),
                at,
            ),
            final(self)@ == records_after_issue(old(self)@, record_result(result)),
    {
        let count = self.tokens.len();
        if self.contains_value(new_token.value.as_str()) || count as u64
            >= 0x7fff_ffff_ffff_fffe {
            return Err(AuthError::StorageError);
        }
        let token = AccessToken {
            id: count as i64 + 1,
            user_id: new_token.user_id,
            value: new_token.value,
            revoked: false,
            created_at: at,
            updated_at: at,
        };
        let copy = token.duplicate();
        let ghost before = token_records(self.tokens@);
        self.tokens.push(token);
        proof {
            let after = token_records(self.tokens@);
            assert(after =~= before.push(copy@));
            assert forall|i: int, j: int| 0 <= i < j < after.len() implies (#[trigger] after[i]).value
                != (#[trigger] after[j]).value by {
                if j < before.len() {
                    assert(before[i].value != before[j].value);
                } else {
                    assert(before[i].value != copy@.value);
                }
            }
            assert forall|i: int| 0 <= i < after.len() implies (#[trigger] after[i]).id == i
                + 1 by {
                if i < before.len() {
                    assert(before[i].id == i + 1);
                }
            }
        }
        Ok(copy)
    }

    /// Marks the record numbered `id` as revoked at `at`. A record that is
    /// already revoked is left as it is.
    ///
    /// Fails with `StorageError`, and leaves the store as it was, where no
    /// record has that number.
    pub fn set_revoked(&mut self, id: i64, at: Instant) -> (result: Result<(), AuthError>)
        requires
            old(self).wf(),
        ensures
            final(self).wf(),
            result.is_ok() == has_id(old(self)@, id as int),
            result matches Err(error) ==> error == AuthError::StorageError,
            final(self)@ == revoked_records(old(self)@, id as int, at),
    {
        if id < 1 || id as u64 > self.tokens.len() as u64 {
            return Err(AuthError::StorageError);
        }
        let index: usize = (id - 1) as usize;
        if self.tokens[index].revoked {
            return Ok(());
        }
        let token = AccessToken {
            id: self.tokens[index].id,
            user_id: self.tokens[index].user_id.duplicate(),
            value: self.tokens[index].value.clone(),
            revoked: true,
            updated_at: at,
            created_at: self.tokens[index].created_at,
        };
        let ghost before = token_records(self.tokens@);
        let ghost record = token@;
        self.tokens.set(index, token);
        proof {
            let after = token_records(self.tokens@);
            assert(after =~= before.update(index as int, record));
            assert(record == TokenRecord {
                revoked: true,
                updated_at: at,
                ..before[index as int]
            });
            assert forall|i: int, j: int| 0 <= i < j < after.len() implies (#[trigger] after[i]).value
                != (#[trigger] after[j]).value by {
                assert(before[i].value != before[j].value);
            }
            assert forall|i: int| 0 <= i < after.len() implies (#[trigger] after[i]).id == i
                + 1 by {
                assert(before[i].id == i + 1);
            }
        }
        Ok(())
    }
}

/// A record that is not revoked is found by its value.
pub proof fn lemma_live_found(tokens: Seq<TokenRecord>, index: int)
    requires
        distinct_values(tokens),
        0 <= index < tokens.len(),
        !tokens[index].revoked,
    ensures
        find_valid(tokens, tokens[index].value) == Some(tokens[index]),
{
    let value = tokens[index].value;
    assert(tokens[index].value == value && !tokens[index].revoked);
    let c = choose|i: int|
        0 <= i < tokens.len() && (#[trigger] tokens[i]).value == value && !tokens[i].revoked;
    if c < index {
        assert(tokens[c].value != tokens[index].value);
    } else if c > index {
        assert(tokens[index].value != tokens[c].value);
    }
}

/// The value of a revoked record is held by no valid record.
pub proof fn lemma_revoked_not_found(tokens: Seq<TokenRecord>, index: int)
    requires
        distinct_values(tokens),
        0 <= index < tokens.len(),
        tokens[index].revoked,
    ensures
        find_valid(tokens, tokens[index].value) is None,
{
    let value = tokens[index].value;
    if is_live(tokens, value) {
        let c = choose|i: int|
            0 <= i < tokens.len() && (#[trigger] tokens[i]).value == value && !tokens[i].revoked;
        if c < index {
            assert(tokens[c].value != tokens[index].value);
        } else if c > index {
            assert(tokens[index].value != tokens[c].value);
        }
    }
}

/// Issues, at `now`, a token for `identity` that lives `ttl_secs` seconds,
/// and records it in `store`.
///
/// Fails with `ClockError` where the expiration instant cannot be
/// represented, with `CryptoError` where the token cannot be serialized, and
/// with `StorageError` where the store refuses the record. On failure the
/// store is unchanged. An issued token validates to `identity` at every
/// instant before its expiration, and is an invalid token from then on.
pub fn issue_at(
    identity: &Identity,
    signing_key: &[u8],
    ttl_secs: i64,
    now: Instant,
    store: &mut TokenStore,
) -> (result: Result<AccessToken, AuthError>)
    requires
        old(store).wf(),
    ensures
        final(store).wf(),
        record_result(result) == issue_spec(old(store)@, identity@, signing_key@, ttl_secs, now),
        final(store)@ == records_after_issue(old(store)@, record_result(result)),
        result matches Ok(token) ==> instant_plus(now, ttl_secs) matches Some(expires_at)
            && forall|at: Instant|
            #[trigger] validate_spec(final(store)@, token@.value, signing_key@, at) == if instant_lt(
                at,
                expires_at,
            ) {
                Ok::<IdentityView, AuthError>(identity@)
            } else {
                Err::<IdentityView, AuthError>(AuthError::InvalidToken)
            },
{
    let expires_at = match now.plus_seconds(ttl_secs) {
        Some(expires_at) => expires_at,
        None => {
            return Err(AuthError::ClockError);
        },
    };
    let value = match mint(identity.as_str(), signing_key, expires_at) {
        Ok(value) => value,
        Err(error) => {
            return Err(error);
        },
    };
    let ghost minted = value@;
    let new_token = NewAccessToken { user_id: identity.duplicate(), value };
    let result = store.insert(new_token, now);
    proof {
        if result is Ok {
            let records = store@;
            let last = records.len() - 1;
            lemma_live_found(records, last);
            assert forall|at: Instant|
                #[trigger] validate_spec(records, minted, signing_key@, at) == if instant_lt(
                    at,
                    expires_at,
                ) {
                    Ok::<IdentityView, AuthError>(identity@)
                } else {
                    Err::<IdentityView, AuthError>(AuthError::InvalidToken)
                } by {
                assert(token_grants(minted, signing_key@, at) == if instant_lt(at, expires_at) {
                    Some(vstd::utf8::encode_utf8(identity@.text))
                } else {
                    None
                });
            }
        }
    }
    result
}

/// Issues a token for `identity` that lives `ttl_secs` seconds from the
/// clock's current instant, and records it in `store`.
pub fn issue(identity: &Identity, signing_key: &[u8], ttl_secs: i64, store: &mut TokenStore) -> (result:
    Result<AccessToken, AuthError>)
    requires
        old(store).wf(),
    ensures
        final(store).wf(),
        exists|now: Instant|
            record_result(result) == #[trigger] issue_spec(
                old(store)@,
                identity@,
                signing_key@,
                ttl_secs,
                now,
            ),
        final(store)@ == records_after_issue(old(store)@, record_result(result)),
{
    let at = clock_now();
    let result = issue_at(identity, signing_key, ttl_secs, at, store);
    assert(record_result(result) == issue_spec(old(store)@, identity@, signing_key@, ttl_secs, at));
    result
}

/// Validates a presented token value at `now` and returns the identity it
/// is bound to.
///
/// Fails with `InvalidToken` where no valid record holds the value, or the
/// value is malformed, not authentic under `key`, expired, or not an access
/// token; with `IntegrityError` where the verified token names another
/// identity than its record. The store is only read.
pub fn validate_at(value: &str, key: &[u8], now: Instant, store: &TokenStore) -> (result: Result<
    Identity,
    AuthError,
>)
    requires
        store.wf(),
    ensures
        identity_result_view(result) == validate_spec(store@, value@, key@, now),
{
    let record = match store.find_valid(value) {
        Some(record) => record,
        None => {
            return Err(AuthError::InvalidToken);
        },
    };
    let user = match grants(value, key, now) {
        Some(user) => user,
        None => {
            return Err(AuthError::InvalidToken);
        },
    };
    if bytes_equal(user.as_slice(), record.user_id.as_str().as_bytes()) {
        Ok(record.user_id)
    } else {
        Err(AuthError::IntegrityError)
    }
}

/// Validates a presented token value as of the clock's current instant.
pub fn validate(value: &str, key: &[u8], store: &TokenStore) -> (result: Result<
    Identity,
    AuthError,
>)
    requires
        store.wf(),
    ensures
        exists|now: Instant|
            identity_result_view(result) == #[trigger] validate_spec(store@, value@, key@, now),
{
    let at = clock_now();
    let result = validate_at(value, key, at, store);
    assert(identity_result_view(result) == validate_spec(store@, value@, key@, at));
    result
}

/// Revokes a token at `at`: its record is marked in the store, and the
/// token in hand only once the store has taken the change.
///
/// Revoking a revoked token changes nothing and succeeds. Fails with
/// `StorageError`, and changes nothing, where the store has no such record.
/// Once revoked, the record's value is an invalid token under every key at
/// every instant.
pub fn revoke_at(token: &mut AccessToken, store: &mut TokenStore, at: Instant) -> (result: Result<
    (),
    AuthError,
>)
    requires
        old(store).wf(),
    ensures
        final(store).wf(),
        result.is_ok() == has_id(old(store)@, old(token)@.id),
        result matches Err(error) ==> error == AuthError::StorageError && final(token)@ == old(
            token,
        )@,
        result is Ok ==> final(token)@ == (TokenRecord { revoked: true, ..old(token)@ }),
        final(store)@ == revoked_records(old(store)@, old(token)@.id, at),
        result is Ok ==> forall|key: Seq<u8>, now: Instant|
            #[trigger] validate_spec(
                final(store)@,
                old(store)@[old(token)@.id - 1].value,
                key,
                now,
            ) == Err::<IdentityView, AuthError>(AuthError::InvalidToken),
{
    let result = store.set_revoked(token.id, at);
    if result.is_ok() {
        token.revoked = true;
        proof {
            let index = old(token)@.id - 1;
            assert(store@[index].revoked);
            assert(store@[index].value == old(store)@[index].value);
            lemma_revoked_not_found(store@, index);
        }
    }
    result
}

/// Revokes a token as of the clock's current instant.
pub fn revoke(token: &mut AccessToken, store: &mut TokenStore) -> (result: Result<(), AuthError>)
    requires
        old(store).wf(),
    ensures
        final(store).wf(),
        result.is_ok() == has_id(old(store)@, old(token)@.id),
        result matches Err(error) ==> error == AuthError::StorageError && final(token)@ == old(
            token,
        )@,
        result is Ok ==> final(token)@ == (TokenRecord { revoked: true, ..old(token)@ }),
        exists|at: Instant|
            final(store)@ == #[trigger] revoked_records(old(store)@, old(token)@.id, at),
        result is Ok ==> find_valid(final(store)@, old(store)@[old(token)@.id - 1].value) is None,
{
    let at = clock_now();
    let result = revoke_at(token, store, at);
    proof {
        assert(store@ == revoked_records(old(store)@, old(token)@.id, at));
        if result is Ok {
            let value = old(store)@[old(token)@.id - 1].value;
            assert(validate_spec(store@, value, Seq::<u8>::empty(), at) == Err::<
                IdentityView,
                AuthError,
            >(AuthError::InvalidToken));
            assert(find_valid(store@, value) is None);
        }
    }
    result
}

impl AccessToken {
    /// Create a new `AccessToken` for the given user, as of `now`. The token
    /// lives for an hour.
    pub fn create_at(
        store: &mut TokenStore,
        user_id: &Identity,
        macaroon_secret_key: &[u8],
        now: Instant,
    ) -> (result: Result<AccessToken, AuthError>)
        requires
            old(store).wf(),
        ensures
            final(store).wf(),
            record_result(result) == issue_spec(
                old(store)@,
                user_id@,
                macaroon_secret_key@,
                TOKEN_TTL_SECS,
                now,
            ),
            final(store)@ == records_after_issue(old(store)@, record_result(result)),
    {
        issue_at(user_id, macaroon_secret_key, TOKEN_TTL_SECS, now, store)
    }

    /// Create a new `AccessToken` for the given user.
    pub fn create(store: &mut TokenStore, user_id: &Identity, macaroon_secret_key: &[u8]) -> (result:
        Result<AccessToken, AuthError>)
        requires
            old(store).wf(),
        ensures
            final(store).wf(),
            exists|now: Instant|
                record_result(result) == #[trigger] issue_spec(
                    old(store)@,
                    user_id@,
                    macaroon_secret_key@,
                    TOKEN_TTL_SECS,
                    now,
                ),
            final(store)@ == records_after_issue(old(store)@, record_result(result)),
    {
        issue(user_id, macaroon_secret_key, TOKEN_TTL_SECS, store)
    }

    /// Finds the `AccessToken` with the given string value.
    ///
    /// A revoked access token is not found.
    pub fn find_valid_by_token(store: &TokenStore, token: &str) -> (result: Result<
        Option<AccessToken>,
        AuthError,
    >)
        requires
            store.wf(),
        ensures
            result matches Ok(found) && record_option(found) == find_valid(store@, token@),
    {
        Ok(store.find_valid(token))
    }

    /// Revoke the access token so it cannot be used again.
    pub fn revoke(&mut self, store: &mut TokenStore) -> (result: Result<(), AuthError>)
        requires
            old(store).wf(),
        ensures
            final(store).wf(),
            result.is_ok() == has_id(old(store)@, old(self)@.id),
            result matches Err(error) ==> error == AuthError::StorageError && final(self)@ == old(
                self,
            )@,
            result is Ok ==> final(self)@ == (TokenRecord { revoked: true, ..old(self)@ }),
            exists|at: Instant|
                final(store)@ == #[trigger] revoked_records(old(store)@, old(self)@.id, at),
            result is Ok ==> find_valid(final(store)@, old(store)@[old(self)@.id - 1].value) is None,
    {
        revoke(self, store)
    }
}

} // verus!
