//! The caveats of an access token: typed predicates and their text.
//!
//! An access token carries three first-party caveats, in this order:
//! `user_id = <identity>`, `type = access` and `time < <instant>`. In memory
//! a caveat is a typed predicate; in a token it is the text of that grammar.

use crate::bytes::{after, bytes_after, bytes_equal, extend, has_prefix, starts_with};
use crate::clock::{
    format_instant, instant_lt, instant_of_pair, instant_of_text, instant_text, parse_instant,
    Instant,
};
use vstd::prelude::*;

verus! {

/// What a caveat holds, as plain values.
pub enum CaveatView {
    /// The token is bound to the identity of this text, given as bytes.
    UserId(Seq<u8>),
    /// The token grants access.
    AccessType,
    /// The token holds before this instant, and not from it on.
    ExpiresBefore(Instant),
}

/// A first-party predicate of an access token.
#[derive(Debug)]
pub enum Caveat {
    /// The token is bound to the identity of this text, given as bytes.
    UserId(Vec<u8>),
    /// The token grants access.
    AccessType,
    /// The token holds before this instant, and not from it on.
    ExpiresBefore(Instant),
}

impl View for Caveat {
    type V = CaveatView;

    open spec fn view(&self) -> CaveatView {
        match self {
            Caveat::UserId(identity) => CaveatView::UserId(identity@),
            Caveat::AccessType => CaveatView::AccessType,
            Caveat::ExpiresBefore(at) => CaveatView::ExpiresBefore(*at),
        }
    }
}

/// The text `user_id = `.
pub open spec fn user_prefix() -> Seq<u8> {
    seq![117u8, 115u8, 101u8, 114u8, 95u8, 105u8, 100u8, 32u8, 61u8, 32u8]
}

/// The caveat `type = access`.
pub open spec fn access_caveat() -> Seq<u8> {
    seq![116u8, 121u8, 112u8, 101u8, 32u8, 61u8, 32u8, 97u8, 99u8, 99u8, 101u8, 115u8, 115u8]
}

/// The text `time < `.
pub open spec fn time_prefix() -> Seq<u8> {
    seq![116u8, 105u8, 109u8, 101u8, 32u8, 60u8, 32u8]
}

/// The caveat that binds a token to an identity.
pub open spec fn user_caveat(identity: Seq<char>) -> Seq<u8> {
    user_prefix() + vstd::utf8::encode_utf8(identity)
}

/// The caveat that ends a token's life at the instant of the given text.
pub open spec fn expiry_caveat(expiry_text: Seq<u8>) -> Seq<u8> {
    time_prefix() + expiry_text
}

/// The three caveats of an access token, in the order they are appended.
pub open spec fn access_caveats(identity: Seq<char>, expiry_text: Seq<u8>) -> Seq<Seq<u8>> {
    seq![user_caveat(identity), access_caveat(), expiry_caveat(expiry_text)]
}

/// The text of a caveat, or `None` where the calendar cannot hold its
/// instant.
pub open spec fn encoded_caveat(caveat: CaveatView) -> Option<Seq<u8>> {
    match caveat {
        CaveatView::UserId(identity) => Some(user_prefix() + identity),
        CaveatView::AccessType => Some(access_caveat()),
        CaveatView::ExpiresBefore(at) => match instant_text(at.secs as int, at.nanos as int) {
            Some(text) => Some(time_prefix() + text),
            None => None,
        },
    }
}

/// The caveat that a text stands for, or `None` where the text is none of
/// the three forms.
pub open spec fn decoded_caveat(text: Seq<u8>) -> Option<CaveatView> {
    if has_prefix(text, user_prefix()) {
        Some(CaveatView::UserId(after(text, user_prefix().len())))
    } else if text == access_caveat() {
        Some(CaveatView::AccessType)
    } else if has_prefix(text, time_prefix()) {
        match instant_of_pair(instant_of_text(after(text, time_prefix().len()))) {
            Some(at) => Some(CaveatView::ExpiresBefore(at)),
            None => None,
        }
    } else {
        None
    }
}

/// The identity text, as bytes, that a list of caveats grants access to at
/// `now`: the list must be an identity caveat, the access type and a time
/// caveat that has not passed, in this order and nothing else.
pub open spec fn granted(caveats: Seq<Seq<u8>>, now: Instant) -> Option<Seq<u8>> {
    if caveats.len() == 3 {
        match (decoded_caveat(caveats[0]), decoded_caveat(caveats[1]), decoded_caveat(caveats[2])) {
            (
                Some(CaveatView::UserId(identity)),
                Some(CaveatView::AccessType),
                Some(CaveatView::ExpiresBefore(expires_at)),
            ) => if instant_lt(now, expires_at) {
                Some(identity)
            } else {
                None
            },
            _ => None,
        }
    } else {
        None
    }
}

/// The view of optional bytes.
pub open spec fn bytes_view(bytes: Option<Vec<u8>>) -> Option<Seq<u8>> {
    match bytes {
        Some(bytes) => Some(bytes@),
        None => None,
    }
}

/// The view of an optional caveat.
pub open spec fn caveat_view(caveat: Option<Caveat>) -> Option<CaveatView> {
    match caveat {
        Some(caveat) => Some(caveat@),
        None => None,
    }
}

/// The text `user_id = `, as bytes.
fn user_prefix_bytes() -> (prefix: Vec<u8>)
    ensures
        prefix@ == user_prefix(),
{
    let prefix: Vec<u8> = vec![117u8, 115u8, 101u8, 114u8, 95u8, 105u8, 100u8, 32u8, 61u8, 32u8];
    assert(prefix@ =~= user_prefix());
    prefix
}

/// The caveat `type = access`, as bytes.
fn access_caveat_bytes() -> (caveat: Vec<u8>)
    ensures
        caveat@ == access_caveat(),
{
    let caveat: Vec<u8> = vec![
        116u8,
        121u8,
        112u8,
        101u8,
        32u8,
        61u8,
        32u8,
        97u8,
        99u8,
        99u8,
        101u8,
        115u8,
        115u8,
    ];
    assert(caveat@ =~= access_caveat());
    caveat
}

/// The text `time < `, as bytes.
fn time_prefix_bytes() -> (prefix: Vec<u8>)
    ensures
        prefix@ == time_prefix(),
{
    let prefix: Vec<u8> = vec![116u8, 105u8, 109u8, 101u8, 32u8, 60u8, 32u8];
    assert(prefix@ =~= time_prefix());
    prefix
}

/// A caveat's text stands for the caveat again, wherever the text of its
/// instant does.
pub proof fn lemma_caveat_round_trip(caveat: CaveatView)
    requires
        caveat matches CaveatView::ExpiresBefore(at) ==> (instant_text(
            at.secs as int,
            at.nanos as int,
        ) matches Some(text) ==> instant_of_text(text) == Some((at.secs as int, at.nanos as int))),
    ensures
        encoded_caveat(caveat) matches Some(text) ==> decoded_caveat(text) == Some(caveat),
{
    match caveat {
        CaveatView::UserId(identity) => {
            let text = user_prefix() + identity;
            assert(text.subrange(0, user_prefix().len() as int) =~= user_prefix());
            assert(after(text, user_prefix().len()) =~= identity);
        },
        CaveatView::AccessType => {
            assert(access_caveat()[0] != user_prefix()[0]);
            if has_prefix(access_caveat(), user_prefix()) {
                assert(access_caveat().subrange(0, user_prefix().len() as int)[0]
                    == user_prefix()[0]);
            }
        },
        CaveatView::ExpiresBefore(at) => {
            match instant_text(at.secs as int, at.nanos as int) {
                Some(expiry) => {
                    let text = time_prefix() + expiry;
                    assert(text[0] != user_prefix()[0]);
                    if has_prefix(text, user_prefix()) {
                        assert(text.subrange(0, user_prefix().len() as int)[0] == user_prefix()[0]);
                    }
                    assert(text[1] != access_caveat()[1]);
                    assert(text.subrange(0, time_prefix().len() as int) =~= time_prefix());
                    assert(after(text, time_prefix().len()) =~= expiry);
                },
                None => {},
            }
        },
    }
}

/// The caveats of an access token grant its identity before the instant
/// that their time caveat stands for, and nothing from then on.
pub proof fn lemma_access_caveats_grant(
    identity: Seq<char>,
    expiry_text: Seq<u8>,
    expires_at: Instant,
    now: Instant,
)
    requires
        decoded_caveat(expiry_caveat(expiry_text)) == Some(CaveatView::ExpiresBefore(expires_at)),
    ensures
        granted(access_caveats(identity, expiry_text), now) == if instant_lt(now, expires_at) {
            Some(vstd::utf8::encode_utf8(identity))
        } else {
            None
        },
{
    lemma_caveat_round_trip(CaveatView::UserId(vstd::utf8::encode_utf8(identity)));
    lemma_caveat_round_trip(CaveatView::AccessType);
}

impl Caveat {
    /// The text of the caveat, or `None` where the calendar cannot hold its
    /// instant. The text stands for the caveat again.
    pub fn encode(&self) -> (text: Option<Vec<u8>>)
        ensures
            bytes_view(text) == encoded_caveat(self@),
            text matches Some(t) ==> decoded_caveat(t@) == Some(self@),
    {
        match self {
            Caveat::UserId(identity) => {
                let mut text = user_prefix_bytes();
                extend(&mut text, identity.as_slice());
                proof {
                    lemma_caveat_round_trip(self@);
                }
                Some(text)
            },
            Caveat::AccessType => {
                proof {
                    lemma_caveat_round_trip(self@);
                }
                Some(access_caveat_bytes())
            },
            Caveat::ExpiresBefore(at) => match format_instant(*at) {
                Some(expiry) => {
                    let mut text = time_prefix_bytes();
                    extend(&mut text, expiry.as_slice());
                    proof {
                        lemma_caveat_round_trip(self@);
                    }
                    Some(text)
                },
                None => None,
            },
        }
    }

    /// The caveat that a text stands for, or `None` where the text is none
    /// of the three forms.
    pub fn decode(text: &[u8]) -> (caveat: Option<Caveat>)
        ensures
            caveat_view(caveat) == decoded_caveat(text@),
    {
        let user = user_prefix_bytes();
        let access = access_caveat_bytes();
        let time = time_prefix_bytes();
        if starts_with(text, user.as_slice()) {
            Some(Caveat::UserId(bytes_after(text, user.len())))
        } else if bytes_equal(text, access.as_slice()) {
            Some(Caveat::AccessType)
        } else if starts_with(text, time.as_slice()) {
            let expiry = bytes_after(text, time.len());
            match parse_instant(expiry.as_slice()) {
                Some(at) => Some(Caveat::ExpiresBefore(at)),
                None => None,
            }
        } else {
            None
        }
    }
}

/// Checks the caveats of an opened token at `now` and returns the identity
/// text, as bytes, that they grant access to.
pub fn check_caveats(caveats: &Vec<Vec<u8>>, now: Instant) -> (identity: Option<Vec<u8>>)
    ensures
        bytes_view(identity) == granted(crate::packet::views(caveats@), now),
{
    if caveats.len() != 3 {
        return None;
    }
    let user = Caveat::decode(caveats[0].as_slice());
    let access = Caveat::decode(caveats[1].as_slice());
    let expiry = Caveat::decode(caveats[2].as_slice());
    match (user, access, expiry) {
        (Some(Caveat::UserId(identity)), Some(Caveat::AccessType), Some(Caveat::ExpiresBefore(expires_at))) => {
            if now.is_before(&expires_at) {
                Some(identity)
            } else {
                None
            }
        },
        _ => None,
    }
}

} // verus!
