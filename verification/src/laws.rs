//! Laws that relate the operations to one another, stated over the
//! spec functions that the operations' contracts use.

use crate::access_token::{
    distinct_values, find_valid, fresh_record, has_value, insertable, is_live, issue_outcome,
    records_after_issue, revoked_records, validate_spec, TokenRecord,
};
use crate::clock::Instant;
use crate::credentials::{
    argon2i, hashable, lookup_user, password_matches, verify_spec, UserView,
};
use crate::encoding::{base64_decoded, base64_text};
use crate::error::{status_of, AuthError, Status};
use crate::identity::IdentityView;
use vstd::prelude::*;

verus! {

/// A registered identity verifies with a presented password exactly when
/// the presented password can be hashed and its digest under the record's
/// salt is the digest of the registered password. Any other password fails
/// with `InvalidCredentials`, never with another error.
pub proof fn law_verify_compares_digests(
    users: Seq<UserView>,
    identity: IdentityView,
    registered: Seq<char>,
    presented: Seq<char>,
)
    requires
        lookup_user(users, identity.text) matches Some(user) && password_matches(user, registered),
    ensures
        lookup_user(users, identity.text) matches Some(user) && (verify_spec(
            users,
            identity,
            presented,
        ) == if hashable(presented, user.salt) && argon2i(presented, user.salt) == argon2i(
            registered,
            user.salt,
        ) {
            Ok::<IdentityView, AuthError>(identity)
        } else {
            Err::<IdentityView, AuthError>(AuthError::InvalidCredentials)
        }),
{
}

/// A registered identity verifies with the password it was registered with.
pub proof fn law_registered_password_verifies(
    users: Seq<UserView>,
    identity: IdentityView,
    registered: Seq<char>,
)
    requires
        lookup_user(users, identity.text) matches Some(user) && password_matches(user, registered),
    ensures
        verify_spec(users, identity, registered) == Ok::<IdentityView, AuthError>(identity),
{
}

/// A presented password whose digest differs from the registered one's fails
/// with `InvalidCredentials`.
pub proof fn law_other_password_fails(
    users: Seq<UserView>,
    identity: IdentityView,
    registered: Seq<char>,
    presented: Seq<char>,
)
    requires
        lookup_user(users, identity.text) matches Some(user) && password_matches(user, registered)
            && argon2i(presented, user.salt) != argon2i(registered, user.salt),
    ensures
        verify_spec(users, identity, presented) == Err::<IdentityView, AuthError>(
            AuthError::InvalidCredentials,
        ),
{
}

/// An unknown identity and a wrong password are answered alike.
pub proof fn law_verify_failures_look_alike(
    users: Seq<UserView>,
    identity: IdentityView,
    presented: Seq<char>,
)
    ensures
        verify_spec(users, identity, presented) matches Err(error) ==> status_of(error)
            == Status::Forbidden,
{
}

/// A value that no valid record holds is an invalid token, under every key
/// and at every instant: an unknown value and a revoked one look alike.
pub proof fn law_unheld_value_is_invalid(
    tokens: Seq<TokenRecord>,
    value: Seq<char>,
    key: Seq<u8>,
    now: Instant,
)
    requires
        !is_live(tokens, value),
    ensures
        validate_spec(tokens, value, key, now) == Err::<IdentityView, AuthError>(
            AuthError::InvalidToken,
        ),
{
}

/// Validation never fails with anything but `InvalidToken` or
/// `IntegrityError`.
pub proof fn law_validate_errors(
    tokens: Seq<TokenRecord>,
    value: Seq<char>,
    key: Seq<u8>,
    now: Instant,
)
    ensures
        validate_spec(tokens, value, key, now) matches Err(error) ==> error
            == AuthError::InvalidToken || error == AuthError::IntegrityError,
{
}

/// Two payloads that both survive encoding and decoding have different
/// values whenever they differ: a payload changed in any byte and encoded
/// again is not the value it came from.
pub proof fn law_changed_payload_changes_value(payload: Seq<u8>, changed: Seq<u8>)
    requires
        payload != changed,
        base64_decoded(base64_text(payload)) == Some(payload),
        base64_decoded(base64_text(changed)) == Some(changed),
    ensures
        base64_text(payload) != base64_text(changed),
{
}

/// A token made of a changed payload is invalid wherever the store holds no
/// valid record of its value; the value differs from the one it was made
/// from.
pub proof fn law_tampered_token_is_invalid(
    tokens: Seq<TokenRecord>,
    payload: Seq<u8>,
    changed: Seq<u8>,
    key: Seq<u8>,
    now: Instant,
)
    requires
        payload != changed,
        base64_decoded(base64_text(payload)) == Some(payload),
        base64_decoded(base64_text(changed)) == Some(changed),
        forall|i: int|
            0 <= i < tokens.len() && (#[trigger] tokens[i]).value != base64_text(payload)
                ==> tokens[i].value != base64_text(changed),
    ensures
        validate_spec(tokens, base64_text(changed), key, now) == Err::<IdentityView, AuthError>(
            AuthError::InvalidToken,
        ),
{
    law_changed_payload_changes_value(payload, changed);
    let value = base64_text(changed);
    if is_live(tokens, value) {
        let i = choose|i: int|
            0 <= i < tokens.len() && (#[trigger] tokens[i]).value == value && !tokens[i].revoked;
        assert(tokens[i].value != base64_text(payload));
    }
}

/// Revocation is permanent under issuance: a value that a record holds and
/// no valid record holds stays so when a record is added, since the store
/// takes no second record of a value.
pub proof fn law_revoked_survives_issue(
    tokens: Seq<TokenRecord>,
    added: TokenRecord,
    value: Seq<char>,
)
    requires
        has_value(tokens, value),
        !is_live(tokens, value),
        !has_value(tokens, added.value),
    ensures
        !is_live(tokens.push(added), value),
        find_valid(tokens.push(added), value) is None,
{
    let after = tokens.push(added);
    if is_live(after, value) {
        let i = choose|i: int|
            0 <= i < after.len() && (#[trigger] after[i]).value == value && !after[i].revoked;
        if i < tokens.len() {
            assert(tokens[i].value == value && !tokens[i].revoked);
        } else {
            let j = choose|j: int| 0 <= j < tokens.len() && (#[trigger] tokens[j]).value == value;
            assert(tokens[j].value == added.value);
        }
    }
}

/// Revocation is permanent under revocation: revoking any record makes no
/// value valid that was not valid before.
pub proof fn law_revoked_survives_revoke(
    tokens: Seq<TokenRecord>,
    id: int,
    at: Instant,
    value: Seq<char>,
)
    requires
        !is_live(tokens, value),
    ensures
        !is_live(revoked_records(tokens, id, at), value),
        find_valid(revoked_records(tokens, id, at), value) is None,
{
    let after = revoked_records(tokens, id, at);
    if is_live(after, value) {
        let i = choose|i: int|
            0 <= i < after.len() && (#[trigger] after[i]).value == value && !after[i].revoked;
        assert(tokens[i].value == value && !tokens[i].revoked);
    }
}

/// Revoking a record makes its value invalid.
pub proof fn law_revoke_invalidates(
    tokens: Seq<TokenRecord>,
    id: int,
    at: Instant,
    key: Seq<u8>,
    now: Instant,
)
    requires
        distinct_values(tokens),
        1 <= id <= tokens.len(),
    ensures
        validate_spec(revoked_records(tokens, id, at), tokens[id - 1].value, key, now) == Err::<
            IdentityView,
            AuthError,
        >(AuthError::InvalidToken),
{
    let after = revoked_records(tokens, id, at);
    let value = tokens[id - 1].value;
    assert(after[id - 1].revoked && after[id - 1].value == value);
    if is_live(after, value) {
        let i = choose|i: int|
            0 <= i < after.len() && (#[trigger] after[i]).value == value && !after[i].revoked;
        assert(tokens[i].value == value);
        if i < id - 1 {
            assert(tokens[i].value != tokens[id - 1].value);
        } else if i > id - 1 {
            assert(tokens[id - 1].value != tokens[i].value);
        }
    }
}

/// Revoking twice is revoking once: the second revocation changes nothing,
/// not even the instant of the record's last change.
pub proof fn law_revoke_is_idempotent(tokens: Seq<TokenRecord>, id: int, first: Instant, second: Instant)
    ensures
        revoked_records(revoked_records(tokens, id, first), id, second) == revoked_records(
            tokens,
            id,
            first,
        ),
{
}

/// Revocation only ever turns the flag on: every record that was revoked
/// before is revoked after, and no other field of any record but the
/// revoked one changes.
pub proof fn law_revoke_is_monotonic(tokens: Seq<TokenRecord>, id: int, at: Instant, index: int)
    requires
        0 <= index < tokens.len(),
    ensures
        revoked_records(tokens, id, at).len() == tokens.len(),
        tokens[index].revoked ==> revoked_records(tokens, id, at)[index] == tokens[index],
        index != id - 1 ==> revoked_records(tokens, id, at)[index] == tokens[index],
        revoked_records(tokens, id, at)[index].value == tokens[index].value,
        revoked_records(tokens, id, at)[index].user_id == tokens[index].user_id,
{
}

/// A change that the token store goes through.
pub enum StoreChange {
    /// A token with this value was issued to this identity at this instant.
    Issue(IdentityView, Seq<char>, Instant),
    /// The record of this number was revoked at this instant.
    Revoke(int, Instant),
}

/// The records after one change. A value that is held already is not
/// recorded again.
pub open spec fn changed(tokens: Seq<TokenRecord>, change: StoreChange) -> Seq<TokenRecord> {
    match change {
        StoreChange::Issue(user_id, value, at) => if insertable(tokens, value) {
            tokens.push(fresh_record(tokens, user_id, value, at))
        } else {
            tokens
        },
        StoreChange::Revoke(id, at) => revoked_records(tokens, id, at),
    }
}

/// The records after a run of changes, the first of them first.
pub open spec fn changed_by(tokens: Seq<TokenRecord>, changes: Seq<StoreChange>) -> Seq<TokenRecord>
    decreases changes.len(),
{
    if changes.len() == 0 {
        tokens
    } else {
        changed_by(changed(tokens, changes[0]), changes.drop_first())
    }
}

/// What issuance does to the records is a change of the store, or nothing
/// where minting failed.
pub proof fn law_issue_is_a_change(
    tokens: Seq<TokenRecord>,
    user_id: IdentityView,
    minted: Result<Seq<char>, AuthError>,
    at: Instant,
)
    ensures
        records_after_issue(tokens, issue_outcome(tokens, user_id, minted, at)) == match minted {
            Ok(value) => changed(tokens, StoreChange::Issue(user_id, value, at)),
            Err(_) => tokens,
        },
{
}

/// Whether some record holds `value` and is revoked.
pub open spec fn is_revoked(tokens: Seq<TokenRecord>, value: Seq<char>) -> bool {
    has_value(tokens, value) && !is_live(tokens, value)
}

/// One change leaves a revoked value revoked.
pub proof fn law_revoked_survives_change(
    tokens: Seq<TokenRecord>,
    change: StoreChange,
    value: Seq<char>,
)
    requires
        is_revoked(tokens, value),
    ensures
        is_revoked(changed(tokens, change), value),
{
    let after = changed(tokens, change);
    let held = choose|i: int| 0 <= i < tokens.len() && (#[trigger] tokens[i]).value == value;
    match change {
        StoreChange::Issue(user_id, added, at) => {
            if insertable(tokens, added) {
                law_revoked_survives_issue(tokens, fresh_record(tokens, user_id, added, at), value);
                assert(after[held].value == value);
            }
        },
        StoreChange::Revoke(id, at) => {
            law_revoked_survives_revoke(tokens, id, at, value);
            assert(after[held].value == value);
        },
    }
}

/// Revocation is permanent: whatever is issued or revoked afterwards, a
/// revoked value stays revoked, and validating it fails with `InvalidToken`
/// under every key and at every instant.
pub proof fn law_revocation_is_permanent(
    tokens: Seq<TokenRecord>,
    changes: Seq<StoreChange>,
    value: Seq<char>,
    key: Seq<u8>,
    now: Instant,
)
    requires
        is_revoked(tokens, value),
    ensures
        is_revoked(changed_by(tokens, changes), value),
        validate_spec(changed_by(tokens, changes), value, key, now) == Err::<
            IdentityView,
            AuthError,
        >(AuthError::InvalidToken),
    decreases changes.len(),
{
    if changes.len() > 0 {
        law_revoked_survives_change(tokens, changes[0], value);
        law_revocation_is_permanent(
            changed(tokens, changes[0]),
            changes.drop_first(),
            value,
            key,
            now,
        );
    }
}

/// The store's invariant survives every change: values stay unique.
pub proof fn law_values_stay_distinct(tokens: Seq<TokenRecord>, change: StoreChange)
    requires
        distinct_values(tokens),
    ensures
        distinct_values(changed(tokens, change)),
{
    let after = changed(tokens, change);
    assert forall|i: int, j: int| 0 <= i < j < after.len() implies (#[trigger] after[i]).value != (
    #[trigger] after[j]).value by {
        match change {
            StoreChange::Issue(user_id, added, at) => {
                if j < tokens.len() {
                    assert(tokens[i].value != tokens[j].value);
                } else {
                    assert(tokens[i].value != added);
                }
            },
            StoreChange::Revoke(id, at) => {
                assert(tokens[i].value != tokens[j].value);
            },
        }
    }
}

} // verus!
