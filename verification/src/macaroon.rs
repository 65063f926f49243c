//! Bearer tokens: their caveats, how they are minted and how they are opened.
//!
//! A token is rooted at the server's secret key under the label `key` and
//! carries three first-party caveats, in this order: the identity it is bound
//! to, its type, and the instant before which it holds.

use crate::caveat::{
    access_caveats, bytes_view, check_caveats, granted, lemma_access_caveats_grant, Caveat,
};
use crate::clock::{clock_now, instant_lt, instant_plus, instant_text, Instant};
use crate::encoding::{
    base64_decoded, base64_text, base64url_bytes, base64url_decoded, encodable, from_base64,
    from_base64url, to_base64,
};
use crate::error::AuthError;
use crate::identity::Identity;
use crate::packet::{
    lemma_parse_token, packets_fit, parse, parse_token, token_packets, views, Token, TokenView,
    SIGNATURE_LEN,
};
use vstd::prelude::*;
use vstd::string::*;

verus! {

/// The seconds a token lives.
pub const TOKEN_TTL_SECS: i64 = 3600;

/// The tag that binds an identifier and a list of first-party caveats to a
/// root key.
pub uninterp spec fn v1_signature(key: Seq<u8>, identifier: Seq<u8>, caveats: Seq<Seq<u8>>) -> Seq<
    u8,
>;

/// The unpadded URL-safe Base64 text, as bytes, that a token's packets are
/// wrapped in.
pub uninterp spec fn base64url_text(bytes: Seq<u8>) -> Seq<u8>;

/// The label of the root key: `key`.
pub open spec fn key_label() -> Seq<u8> {
    seq![107u8, 101u8, 121u8]
}

/// The token rooted at `key` with the given caveats.
pub open spec fn signed_token(key: Seq<u8>, caveats: Seq<Seq<u8>>) -> TokenView {
    TokenView {
        identifier: key_label(),
        caveats,
        signature: v1_signature(key, key_label(), caveats),
    }
}

/// The value of the access token for `identity` that expires at
/// `expires_at`, or the error that minting it ends in.
pub open spec fn mint_spec(identity: Seq<char>, key: Seq<u8>, expires_at: Instant) -> Result<
    Seq<char>,
    AuthError,
> {
    match instant_text(expires_at.secs as int, expires_at.nanos as int) {
        None => Err(AuthError::ClockError),
        Some(text) => {
            let caveats = access_caveats(identity, text);
            let serialized = base64url_text(token_packets(signed_token(key, caveats)));
            if packets_fit(key_label(), caveats) && encodable(serialized.len()) {
                Ok(base64_text(serialized))
            } else {
                Err(AuthError::CryptoError)
            }
        },
    }
}

/// The value of the access token for `identity` minted at `now`.
pub open spec fn create_macaroon_spec(key: Seq<u8>, identity: Seq<char>, now: Instant) -> Result<
    Seq<char>,
    AuthError,
> {
    match instant_plus(now, TOKEN_TTL_SECS) {
        None => Err(AuthError::ClockError),
        Some(expires_at) => mint_spec(identity, key, expires_at),
    }
}

/// The token behind a value, where the value decodes, its packets are well
/// framed and its signature is the one `key` gives.
pub open spec fn opened(value: Seq<char>, key: Seq<u8>) -> Option<TokenView> {
    match base64_decoded(value) {
        None => None,
        Some(serialized) => match base64url_decoded(serialized) {
            None => None,
            Some(packets) => match parse_token(packets) {
                None => None,
                Some(token) => if token.signature == v1_signature(
                    key,
                    token.identifier,
                    token.caveats,
                ) {
                    Some(token)
                } else {
                    None
                },
            },
        },
    }
}

/// The identity text, as bytes, that a token value grants access to at
/// `now` under `key`.
pub open spec fn token_grants(value: Seq<char>, key: Seq<u8>, now: Instant) -> Option<Seq<u8>> {
    match opened(value, key) {
        Some(token) => granted(token.caveats, now),
        None => None,
    }
}

/// Trusted: `V1Token::new` with no location, `add_caveat` of
/// `Caveat::first_party` for each caveat in turn, and `serialize`, all of the
/// crate `macaroons`. Claims what the source shows: serialization fails
/// exactly where a packet would exceed 65535 bytes; otherwise the result is
/// the unpadded URL-safe Base64 text of the packets of identifier, caveats
/// and tag, which `base64` decodes again; the tag has thirty-two bytes.
#[verifier::external_body]
pub(crate) fn serialize_token(key: &[u8], identifier: &[u8], caveats: &Vec<Vec<u8>>) -> (serialized:
    Option<Vec<u8>>)
    ensures
        serialized.is_some() == packets_fit(identifier@, views(caveats@)),
        serialized matches Some(bytes) ==> {
            let signature = v1_signature(key@, identifier@, views(caveats@));
            let packets = token_packets(
                TokenView { identifier: identifier@, caveats: views(caveats@), signature },
            );
            &&& signature.len() == SIGNATURE_LEN
            &&& bytes@ == base64url_text(packets)
            &&& base64url_bytes(bytes@) == Some(packets)
        },
{
    let mut token = <macaroons::v1::V1Token as macaroons::token::Token>::new(
        key,
        identifier.to_vec(),
        None,
    );
    for caveat in caveats {
        let caveat = macaroons::caveat::Caveat::first_party(caveat.clone());
        token = macaroons::token::Token::add_caveat(&token, &caveat);
    }
    macaroons::token::Token::serialize(&token).ok()
}

/// Trusted: `V1Token::authenticate_without_verifying` of the crate
/// `macaroons`, on a token made of the given parts with first-party caveats
/// and no location. Claims what the source shows: the tag is computed anew
/// from key, identifier and caveats and compared with the signature.
#[verifier::external_body]
pub(crate) fn token_authentic(
    key: &[u8],
    identifier: &[u8],
    caveats: &Vec<Vec<u8>>,
    signature: &[u8],
) -> (authentic: bool)
    requires
        signature@.len() == SIGNATURE_LEN,
    ensures
        authentic == (signature@ == v1_signature(key@, identifier@, views(caveats@))),
{
    let mut tag = [0u8; 32];
    tag.copy_from_slice(signature);
    let token = macaroons::v1::V1Token {
        identifier: identifier.to_vec(),
        location: None,
        caveats: caveats.iter().map(|c| macaroons::caveat::Caveat::first_party(c.clone())).collect(),
        tag,
    };
    macaroons::token::Token::authenticate_without_verifying(&token, key).is_ok()
}

/// The label of the root key, as bytes.
pub fn key_label_bytes() -> (label: Vec<u8>)
    ensures
        label@ == key_label(),
{
    let label: Vec<u8> = vec![107u8, 101u8, 121u8];
    assert(label@ =~= key_label());
    label
}

/// The view of a minted value or the error in its place.
pub open spec fn value_view(result: Result<String, AuthError>) -> Result<Seq<char>, AuthError> {
    match result {
        Ok(value) => Ok(value@),
        Err(error) => Err(error),
    }
}

/// The view of an optional token.
pub open spec fn token_view(token: Option<Token>) -> Option<TokenView> {
    match token {
        Some(token) => Some(token@),
        None => None,
    }
}

/// Mints the access token for `identity` that expires at `expires_at` and
/// returns its value.
///
/// Fails with `ClockError` where the calendar cannot hold `expires_at`, and
/// with `CryptoError` where the token cannot be serialized. A minted value
/// grants `identity` under `key` at every instant before `expires_at`, and
/// nothing at any other.
pub fn mint(identity: &str, key: &[u8], expires_at: Instant) -> (result: Result<String, AuthError>)
    ensures
        value_view(result) == mint_spec(identity@, key@, expires_at),
        result matches Ok(value) ==> forall|at: Instant|
            #[trigger] token_grants(value@, key@, at) == if instant_lt(at, expires_at) {
                Some(vstd::utf8::encode_utf8(identity@))
            } else {
                None
            },
{
    let expiry = match Caveat::ExpiresBefore(expires_at).encode() {
        Some(expiry) => expiry,
        None => {
            return Err(AuthError::ClockError);
        },
    };
    let user = Caveat::UserId(identity.as_bytes_vec()).encode().unwrap();
    let access = Caveat::AccessType.encode().unwrap();
    let ghost text = instant_text(expires_at.secs as int, expires_at.nanos as int)->0;
    let ghost list = access_caveats(identity@, text);
    let mut caveats: Vec<Vec<u8>> = Vec::new();
    caveats.push(user);
    caveats.push(access);
    caveats.push(expiry);
    assert(views(caveats@) =~= list);
    let label = key_label_bytes();
    let serialized = match serialize_token(key, label.as_slice(), &caveats) {
        Some(serialized) => serialized,
        None => {
            return Err(AuthError::CryptoError);
        },
    };
    match to_base64(serialized.as_slice()) {
        Some(value) => {
            proof {
                let token = signed_token(key@, list);
                lemma_parse_token(token);
                assert(opened(value@, key@) == Some(token));
                assert forall|at: Instant|
                    #[trigger] token_grants(value@, key@, at) == if instant_lt(at, expires_at) {
                        Some(vstd::utf8::encode_utf8(identity@))
                    } else {
                        None
                    } by {
                    lemma_access_caveats_grant(identity@, text, expires_at, at);
                }
            }
            Ok(value)
        },
        None => Err(AuthError::CryptoError),
    }
}

/// Mints, at `now`, the access token for `user_id` under the server's secret
/// key. The token lives for an hour.
pub fn create_macaroon_at(macaroon_secret_key: &[u8], user_id: &Identity, now: Instant) -> (result:
    Result<String, AuthError>)
    ensures
        value_view(result) == create_macaroon_spec(macaroon_secret_key@, user_id@.text, now),
        result matches Ok(value) ==> instant_plus(now, TOKEN_TTL_SECS) matches Some(expires_at)
            && forall|at: Instant|
            #[trigger] token_grants(value@, macaroon_secret_key@, at) == if instant_lt(
                at,
                expires_at,
            ) {
                Some(vstd::utf8::encode_utf8(user_id@.text))
            } else {
                None
            },
{
    match now.plus_seconds(TOKEN_TTL_SECS) {
        Some(expires_at) => mint(user_id.as_str(), macaroon_secret_key, expires_at),
        None => Err(AuthError::ClockError),
    }
}

/// Mints the access token for `user_id` under the server's secret key, as of
/// the clock's current instant.
pub fn create_macaroon(macaroon_secret_key: &[u8], user_id: &Identity) -> (result: Result<
    String,
    AuthError,
>)
    ensures
        exists|now: Instant|
            value_view(result) == #[trigger] create_macaroon_spec(
                macaroon_secret_key@,
                user_id@.text,
                now,
            ),
{
    let at = clock_now();
    let result = create_macaroon_at(macaroon_secret_key, user_id, at);
    assert(value_view(result) == create_macaroon_spec(macaroon_secret_key@, user_id@.text, at));
    result
}

/// Opens a token value: decodes it, reads its packets and checks its
/// signature against `key`. `None` for whatever is not an authentic token.
pub fn open_token(value: &str, key: &[u8]) -> (token: Option<Token>)
    ensures
        token_view(token) == opened(value@, key@),
{
    let serialized = match from_base64(value) {
        Some(serialized) => serialized,
        None => {
            return None;
        },
    };
    let packets = match from_base64url(serialized.as_slice()) {
        Some(packets) => packets,
        None => {
            return None;
        },
    };
    let token = match parse(packets.as_slice()) {
        Some(token) => token,
        None => {
            return None;
        },
    };
    assert(token@.signature.len() == SIGNATURE_LEN) by {
        crate::packet::lemma_parsed_signature(packets@);
    }
    if token_authentic(
        key,
        token.identifier.as_slice(),
        &token.caveats,
        token.signature.as_slice(),
    ) {
        Some(token)
    } else {
        None
    }
}

/// The identity text, as bytes, that a token value grants access to at
/// `now` under `key`.
pub fn grants(value: &str, key: &[u8], now: Instant) -> (identity: Option<Vec<u8>>)
    ensures
        bytes_view(identity) == token_grants(value@, key@, now),
{
    match open_token(value, key) {
        Some(token) => check_caveats(&token.caveats, now),
        None => None,
    }
}

} // verus!
