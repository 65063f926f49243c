//! The packet framing of a version 1 token.
//!
//! A token is a run of packets: one `identifier`, one `cid` per caveat, one
//! `signature`. A packet is four lower-case hex digits giving its own length,
//! the field name, a space, the value and a line feed.

use crate::bytes::{copy_range, equals_at};
use vstd::prelude::*;

verus! {

/// The longest packet that four hex digits can announce.
pub const MAX_PACKET: usize = 65535;

/// The length of a token's signature.
pub const SIGNATURE_LEN: usize = 32;

/// What a token holds, as plain sequences.
pub struct TokenView {
    /// The public label of the root key.
    pub identifier: Seq<u8>,
    /// The first-party predicates, in the order they were appended.
    pub caveats: Seq<Seq<u8>>,
    /// The tag that binds them to the root key.
    pub signature: Seq<u8>,
}

/// A token read from its packets.
#[derive(Debug)]
pub struct Token {
    /// The public label of the root key.
    pub identifier: Vec<u8>,
    /// The first-party predicates, in the order they were appended.
    pub caveats: Vec<Vec<u8>>,
    /// The tag that binds them to the root key.
    pub signature: Vec<u8>,
}

/// The byte strings of a list, each by its view.
pub open spec fn views(list: Seq<Vec<u8>>) -> Seq<Seq<u8>> {
    Seq::new(list.len(), |i: int| list[i]@)
}

impl View for Token {
    type V = TokenView;

    open spec fn view(&self) -> TokenView {
        TokenView {
            identifier: self.identifier@,
            caveats: views(self.caveats@),
            signature: self.signature@,
        }
    }
}

/// The field name `identifier`.
pub open spec fn identifier_field() -> Seq<u8> {
    seq![105u8, 100u8, 101u8, 110u8, 116u8, 105u8, 102u8, 105u8, 101u8, 114u8]
}

/// The field name `cid`.
pub open spec fn caveat_field() -> Seq<u8> {
    seq![99u8, 105u8, 100u8]
}

/// The field name `signature`.
pub open spec fn signature_field() -> Seq<u8> {
    seq![115u8, 105u8, 103u8, 110u8, 97u8, 116u8, 117u8, 114u8, 101u8]
}

/// The lower-case hex digit of a value below sixteen.
pub open spec fn hex_digit(d: int) -> u8 {
    if d < 10 {
        (48 + d) as u8
    } else {
        (87 + d) as u8
    }
}

/// The value of a lower-case hex digit.
pub open spec fn hex_value(b: u8) -> Option<int> {
    if 48 <= b <= 57 {
        Some(b - 48)
    } else if 97 <= b <= 102 {
        Some(b - 87)
    } else {
        None
    }
}

/// The four hex digits that announce a packet of `n` bytes.
pub open spec fn header(n: int) -> Seq<u8> {
    seq![hex_digit(n / 4096), hex_digit(n / 256 % 16), hex_digit(n / 16 % 16), hex_digit(n % 16)]
}

/// The length that the first four bytes announce.
pub open spec fn header_value(bytes: Seq<u8>) -> Option<int>
    recommends
        bytes.len() >= 4,
{
    match (hex_value(bytes[0]), hex_value(bytes[1]), hex_value(bytes[2]), hex_value(bytes[3])) {
        (Some(a), Some(b), Some(c), Some(d)) => Some(a * 4096 + b * 256 + c * 16 + d),
        _ => None,
    }
}

/// The length of the packet that carries `value` under `field`.
pub open spec fn packet_len(field: Seq<u8>, value: Seq<u8>) -> int {
    4 + field.len() as int + 1 + value.len() as int + 1
}

/// The packet that carries `value` under `field`.
pub open spec fn packet(field: Seq<u8>, value: Seq<u8>) -> Seq<u8> {
    header(packet_len(field, value)) + field + seq![32u8] + value + seq![10u8]
}

/// The value of the leading packet, where it is a packet of `field`, and the
/// bytes that follow it.
#[verifier::opaque]
pub open spec fn take_packet(bytes: Seq<u8>, field: Seq<u8>) -> Option<(Seq<u8>, Seq<u8>)> {
    if bytes.len() < 4 {
        None
    } else {
        match header_value(bytes) {
            Some(n) => if 4 + field.len() as int + 2 <= n <= bytes.len() && bytes.subrange(
                4,
                4 + field.len() as int,
            ) == field && bytes[4 + field.len() as int] == 32 && bytes[n - 1] == 10 {
                Some(
                    (
                        bytes.subrange(4 + field.len() as int + 1, n - 1),
                        bytes.subrange(n, bytes.len() as int),
                    ),
                )
            } else {
                None
            },
            None => None,
        }
    }
}

/// The packets of a list of caveats.
pub open spec fn caveat_packets(caveats: Seq<Seq<u8>>) -> Seq<u8>
    decreases caveats.len(),
{
    if caveats.len() == 0 {
        Seq::empty()
    } else {
        packet(caveat_field(), caveats[0]) + caveat_packets(caveats.drop_first())
    }
}

/// The packets of a token.
pub open spec fn token_packets(token: TokenView) -> Seq<u8> {
    packet(identifier_field(), token.identifier) + caveat_packets(token.caveats) + packet(
        signature_field(),
        token.signature,
    )
}

/// The identifier and every caveat are short enough for their packets to
/// announce their own lengths.
pub open spec fn packets_fit(identifier: Seq<u8>, caveats: Seq<Seq<u8>>) -> bool {
    &&& packet_len(identifier_field(), identifier) <= MAX_PACKET
    &&& forall|i: int|
        0 <= i < caveats.len() ==> packet_len(caveat_field(), #[trigger] caveats[i]) <= MAX_PACKET
}

/// Every packet of the token is short enough to announce its length, and the
/// signature has its fixed length.
pub open spec fn token_fits(token: TokenView) -> bool {
    packets_fit(token.identifier, token.caveats) && token.signature.len() == SIGNATURE_LEN
}

/// The caveats and the signature that a run of packets holds.
pub open spec fn parse_tail(bytes: Seq<u8>) -> Option<(Seq<Seq<u8>>, Seq<u8>)>
    decreases bytes.len(),
{
    match take_packet(bytes, caveat_field()) {
        Some((value, rest)) => if rest.len() < bytes.len() {
            match parse_tail(rest) {
                Some((caveats, signature)) => Some((seq![value] + caveats, signature)),
                None => None,
            }
        } else {
            None
        },
        None => match take_packet(bytes, signature_field()) {
            Some((value, rest)) => if rest.len() == 0 && value.len() == SIGNATURE_LEN {
                Some((Seq::empty(), value))
            } else {
                None
            },
            None => None,
        },
    }
}

/// The token that a run of packets holds, or `None` where the bytes are not
/// one identifier, then caveats, then one signature of the right length.
pub open spec fn parse_token(bytes: Seq<u8>) -> Option<TokenView> {
    match take_packet(bytes, identifier_field()) {
        Some((identifier, rest)) => match parse_tail(rest) {
            Some((caveats, signature)) => Some(TokenView { identifier, caveats, signature }),
            None => None,
        },
        None => None,
    }
}

/// The field name `identifier`, as bytes.
pub fn identifier_name() -> (name: Vec<u8>)
    ensures
        name@ == identifier_field(),
{
    let name: Vec<u8> = vec![105u8, 100u8, 101u8, 110u8, 116u8, 105u8, 102u8, 105u8, 101u8, 114u8];
    assert(name@ =~= identifier_field());
    name
}

/// The field name `cid`, as bytes.
pub fn caveat_name() -> (name: Vec<u8>)
    ensures
        name@ == caveat_field(),
{
    let name: Vec<u8> = vec![99u8, 105u8, 100u8];
    assert(name@ =~= caveat_field());
    name
}

/// The field name `signature`, as bytes.
pub fn signature_name() -> (name: Vec<u8>)
    ensures
        name@ == signature_field(),
{
    let name: Vec<u8> = vec![115u8, 105u8, 103u8, 110u8, 97u8, 116u8, 117u8, 114u8, 101u8];
    assert(name@ =~= signature_field());
    name
}

/// The value of one lower-case hex digit.
fn hex_of(b: u8) -> (value: Option<usize>)
    ensures
        value.is_some() == hex_value(b).is_some(),
        value matches Some(v) ==> hex_value(b) == Some(v as int) && v < 16,
{
    if 48 <= b && b <= 57 {
        Some((b - 48) as usize)
    } else if 97 <= b && b <= 102 {
        Some((b - 87) as usize)
    } else {
        None
    }
}

/// The length that the four bytes at `at` announce.
fn read_header(bytes: &[u8], at: usize) -> (length: Option<usize>)
    requires
        at + 4 <= bytes@.len(),
    ensures
        length.is_some() == header_value(bytes@.subrange(at as int, bytes@.len() as int)).is_some(),
        length matches Some(n) ==> header_value(bytes@.subrange(at as int, bytes@.len() as int))
            == Some(n as int) && n <= MAX_PACKET,
{
    let ghost sub = bytes@.subrange(at as int, bytes@.len() as int);
    assert(sub[0] == bytes@[at as int] && sub[1] == bytes@[at + 1] && sub[2] == bytes@[at + 2]
        && sub[3] == bytes@[at + 3]);
    let a = hex_of(bytes[at]);
    let b = hex_of(bytes[at + 1]);
    let c = hex_of(bytes[at + 2]);
    let d = hex_of(bytes[at + 3]);
    match (a, b, c, d) {
        (Some(a), Some(b), Some(c), Some(d)) => Some(a * 4096 + b * 256 + c * 16 + d),
        _ => None,
    }
}

/// The value of the packet of `field` at `at`, and where the next one starts.
fn take_at(bytes: &[u8], at: usize, field: &[u8]) -> (taken: Option<(Vec<u8>, usize)>)
    requires
        at <= bytes@.len(),
        field@.len() <= 16,
    ensures
        taken.is_some() == take_packet(
            bytes@.subrange(at as int, bytes@.len() as int),
            field@,
        ).is_some(),
        taken matches Some((value, next)) ==> at < next <= bytes@.len() && take_packet(
            bytes@.subrange(at as int, bytes@.len() as int),
            field@,
        ) == Some((value@, bytes@.subrange(next as int, bytes@.len() as int))),
{
    let ghost sub = bytes@.subrange(at as int, bytes@.len() as int);
    proof {
        reveal(take_packet);
    }
    let len = bytes.len();
    if len - at < 4 {
        return None;
    }
    let n = match read_header(bytes, at) {
        Some(n) => n,
        None => {
            return None;
        },
    };
    let f = field.len();
    if n < 4 + f + 2 || n > len - at {
        return None;
    }
    assert(sub.subrange(4, 4 + f) =~= bytes@.subrange(at + 4, at + 4 + f));
    assert(sub[4 + f] == bytes@[at + 4 + f]);
    assert(sub[n - 1] == bytes@[at + n - 1]);
    if !equals_at(bytes, at + 4, field) {
        return None;
    }
    if bytes[at + 4 + f] != 32 || bytes[at + n - 1] != 10 {
        return None;
    }
    let value = copy_range(bytes, at + 4 + f + 1, at + n - 1);
    assert(sub.subrange(4 + f + 1, n - 1) =~= value@);
    assert(sub.subrange(n as int, sub.len() as int) =~= bytes@.subrange(
        at + n,
        bytes@.len() as int,
    ));
    Some((value, at + n))
}

/// Pushing one byte string onto a list pushes its view onto the views.
proof fn lemma_views_push(list: Seq<Vec<u8>>, item: Vec<u8>)
    ensures
        views(list.push(item)) == views(list).push(item@),
{
    assert(views(list.push(item)) =~= views(list).push(item@));
}

/// Reads a token from its packets.
///
/// Accepts exactly one `identifier` packet, then `cid` packets, then one
/// `signature` packet of thirty-two bytes that ends the input. Never panics,
/// whatever the bytes.
pub fn parse(bytes: &[u8]) -> (token: Option<Token>)
    ensures
        token.is_some() == parse_token(bytes@).is_some(),
        token matches Some(t) ==> parse_token(bytes@) == Some(t@),
{
    let id_name = identifier_name();
    let cid_name = caveat_name();
    let sig_name = signature_name();
    let len = bytes.len();
    assert(bytes@.subrange(0, bytes@.len() as int) =~= bytes@);
    let (identifier, start) = match take_at(bytes, 0, id_name.as_slice()) {
        Some(taken) => taken,
        None => {
            return None;
        },
    };
    let ghost tail = bytes@.subrange(start as int, bytes@.len() as int);
    let mut caveats: Vec<Vec<u8>> = Vec::new();
    let mut at: usize = start;
    assert(views(caveats@) =~= Seq::<Seq<u8>>::empty());
    loop
        invariant
            start <= at <= bytes@.len(),
            len == bytes@.len(),
            cid_name@ == caveat_field(),
            sig_name@ == signature_field(),
            tail == bytes@.subrange(start as int, bytes@.len() as int),
            take_packet(bytes@, identifier_field()) == Some((identifier@, tail)),
            parse_tail(tail) == (match parse_tail(bytes@.subrange(at as int, bytes@.len() as int)) {
                Some((more, signature)) => Some((views(caveats@) + more, signature)),
                None => None,
            }),
        decreases bytes@.len() - at,
    {
        let ghost here = bytes@.subrange(at as int, bytes@.len() as int);
        match take_at(bytes, at, cid_name.as_slice()) {
            Some((value, next)) => {
                proof {
                    lemma_views_push(caveats@, value);
                    let rest = bytes@.subrange(next as int, bytes@.len() as int);
                    match parse_tail(rest) {
                        Some((more, signature)) => {
                            assert(views(caveats@) + (seq![value@] + more) =~= views(
                                caveats@,
                            ).push(value@) + more);
                        },
                        None => {},
                    }
                }
                caveats.push(value);
                at = next;
            },
            None => {
                match take_at(bytes, at, sig_name.as_slice()) {
                    Some((signature, next)) => {
                        if next == len && signature.len() == SIGNATURE_LEN {
                            assert(views(caveats@) + Seq::<Seq<u8>>::empty() =~= views(caveats@));
                            return Some(Token { identifier, caveats, signature });
                        } else {
                            return None;
                        }
                    },
                    None => {
                        return None;
                    },
                }
            },
        }
    }
}

/// A length below 65536 is read back from its four hex digits.
pub proof fn lemma_header_round_trip(n: int)
    requires
        0 <= n <= MAX_PACKET,
    ensures
        header(n).len() == 4,
        header_value(header(n)) == Some(n),
{
    let m: u32 = n as u32;
    assert(m / 4096 < 16 && m / 256 % 16 < 16 && m / 16 % 16 < 16 && m % 16 < 16 && m == (m
        / 4096) * 4096 + (m / 256 % 16) * 256 + (m / 16 % 16) * 16 + m % 16) by (bit_vector)
        requires
            m <= 65535,
    ;
    let a = n / 4096;
    let b = n / 256 % 16;
    let c = n / 16 % 16;
    let d = n % 16;
    assert(a == m / 4096 && b == m / 256 % 16 && c == m / 16 % 16 && d == m % 16);
    assert(hex_value(hex_digit(a)) == Some(a));
    assert(hex_value(hex_digit(b)) == Some(b));
    assert(hex_value(hex_digit(c)) == Some(c));
    assert(hex_value(hex_digit(d)) == Some(d));
}

/// A packet of `field` in front of any bytes is taken off whole.
pub proof fn lemma_take_packet(field: Seq<u8>, value: Seq<u8>, rest: Seq<u8>)
    requires
        packet_len(field, value) <= MAX_PACKET,
    ensures
        take_packet(packet(field, value) + rest, field) == Some((value, rest)),
{
    reveal(take_packet);
    let n = packet_len(field, value);
    let bytes = packet(field, value) + rest;
    lemma_header_round_trip(n);
    let h = header(n);
    assert(bytes.len() == n + rest.len());
    assert(bytes[0] == h[0] && bytes[1] == h[1] && bytes[2] == h[2] && bytes[3] == h[3]);
    assert(header_value(bytes) == header_value(h));
    assert(bytes.subrange(4, 4 + field.len() as int) =~= field);
    assert(bytes.subrange(4 + field.len() as int + 1, n - 1) =~= value);
    assert(bytes.subrange(n, bytes.len() as int) =~= rest);
}

/// A packet is not taken for one of a field that starts with another byte.
pub proof fn lemma_take_other(field: Seq<u8>, other: Seq<u8>, value: Seq<u8>, rest: Seq<u8>)
    requires
        field.len() > 0,
        other.len() > 0,
        field[0] != other[0],
    ensures
        take_packet(packet(field, value) + rest, other) is None,
{
    reveal(take_packet);
    let bytes = packet(field, value) + rest;
    assert(bytes[4] == field[0]);
    if take_packet(bytes, other) is Some {
        assert(bytes.subrange(4, 4 + other.len() as int)[0] == other[0]);
    }
}

/// The caveats and the signature of a fitting token are read back from their
/// packets.
pub proof fn lemma_parse_tail(caveats: Seq<Seq<u8>>, signature: Seq<u8>)
    requires
        forall|i: int|
            0 <= i < caveats.len() ==> packet_len(caveat_field(), #[trigger] caveats[i])
                <= MAX_PACKET,
        signature.len() == SIGNATURE_LEN,
    ensures
        parse_tail(caveat_packets(caveats) + packet(signature_field(), signature)) == Some(
            (caveats, signature),
        ),
    decreases caveats.len(),
{
    let last = packet(signature_field(), signature);
    let bytes = caveat_packets(caveats) + last;
    if caveats.len() == 0 {
        assert(bytes =~= last + Seq::<u8>::empty());
        lemma_take_other(signature_field(), caveat_field(), signature, Seq::empty());
        lemma_take_packet(signature_field(), signature, Seq::empty());
    } else {
        let tail = caveats.drop_first();
        let rest = caveat_packets(tail) + last;
        assert(bytes =~= packet(caveat_field(), caveats[0]) + rest);
        assert(rest.len() < bytes.len());
        lemma_take_packet(caveat_field(), caveats[0], rest);
        assert forall|i: int| 0 <= i < tail.len() implies packet_len(
            caveat_field(),
            #[trigger] tail[i],
        ) <= MAX_PACKET by {
            assert(tail[i] == caveats[i + 1]);
        }
        lemma_parse_tail(tail, signature);
        assert(seq![caveats[0]] + tail =~= caveats);
    }
}

/// A signature that was read has its fixed length.
pub proof fn lemma_tail_signature(bytes: Seq<u8>)
    ensures
        parse_tail(bytes) matches Some((_, signature)) ==> signature.len() == SIGNATURE_LEN,
    decreases bytes.len(),
{
    match take_packet(bytes, caveat_field()) {
        Some((_, rest)) => {
            if rest.len() < bytes.len() {
                lemma_tail_signature(rest);
            }
        },
        None => {},
    }
}

/// The signature of a token that was read has its fixed length.
pub proof fn lemma_parsed_signature(bytes: Seq<u8>)
    ensures
        parse_token(bytes) matches Some(token) ==> token.signature.len() == SIGNATURE_LEN,
{
    match take_packet(bytes, identifier_field()) {
        Some((_, rest)) => {
            lemma_tail_signature(rest);
        },
        None => {},
    }
}

/// Reading is the inverse of writing: the packets of a fitting token parse
/// to that token.
pub proof fn lemma_parse_token(token: TokenView)
    requires
        token_fits(token),
    ensures
        parse_token(token_packets(token)) == Some(token),
{
    let rest = caveat_packets(token.caveats) + packet(signature_field(), token.signature);
    assert(token_packets(token) =~= packet(identifier_field(), token.identifier) + rest);
    lemma_take_packet(identifier_field(), token.identifier, rest);
    lemma_parse_tail(token.caveats, token.signature);
}

} // verus!
