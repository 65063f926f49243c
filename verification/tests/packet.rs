use homeserver_auth::caveat::Caveat;
use homeserver_auth::clock::Instant;
use homeserver_auth::packet::{
    caveat_name, identifier_name, parse, signature_name, MAX_PACKET, SIGNATURE_LEN,
};

fn packet(field: &[u8], value: &[u8]) -> Vec<u8> {
    let length = 4 + field.len() + 1 + value.len() + 1;
    let mut bytes = format!("{:04x}", length).into_bytes();
    bytes.extend_from_slice(field);
    bytes.push(b' ');
    bytes.extend_from_slice(value);
    bytes.push(b'\n');
    bytes
}

fn token(identifier: &[u8], caveats: &[&[u8]], signature: &[u8]) -> Vec<u8> {
    let mut bytes = packet(b"identifier", identifier);
    for caveat in caveats {
        bytes.extend(packet(b"cid", caveat));
    }
    bytes.extend(packet(b"signature", signature));
    bytes
}

#[test]
fn field_names() {
    assert_eq!(identifier_name(), b"identifier".to_vec());
    assert_eq!(caveat_name(), b"cid".to_vec());
    assert_eq!(signature_name(), b"signature".to_vec());
    assert_eq!(MAX_PACKET, 65535);
    assert_eq!(SIGNATURE_LEN, 32);
}

#[test]
fn parse_reads_a_token() {
    let signature = [7u8; 32];
    let bytes = token(b"key", &[b"type = access", b"time < soon"], &signature);
    assert!(bytes.starts_with(b"0013identifier key\n0016cid type = access\n"));
    let parsed = parse(&bytes).unwrap();
    assert_eq!(parsed.identifier, b"key".to_vec());
    assert_eq!(parsed.caveats, vec![b"type = access".to_vec(), b"time < soon".to_vec()]);
    assert_eq!(parsed.signature, signature.to_vec());
}

#[test]
fn parse_reads_a_token_without_caveats() {
    let bytes = token(b"", &[], &[0u8; 32]);
    let parsed = parse(&bytes).unwrap();
    assert_eq!(parsed.identifier, Vec::<u8>::new());
    assert!(parsed.caveats.is_empty());
    assert_eq!(parsed.signature, vec![0u8; 32]);
}

#[test]
fn parse_keeps_spaces_and_line_feeds_in_values() {
    let bytes = token(b"a b\nc", &[b"x\n0005 \n", b""], &[b'\n'; 32]);
    let parsed = parse(&bytes).unwrap();
    assert_eq!(parsed.identifier, b"a b\nc".to_vec());
    assert_eq!(parsed.caveats, vec![b"x\n0005 \n".to_vec(), Vec::new()]);
    assert_eq!(parsed.signature, vec![b'\n'; 32]);
}

#[test]
fn parse_reads_the_longest_packet() {
    let caveat = vec![b'x'; 65535 - 4 - 3 - 2];
    let bytes = token(b"key", &[&caveat], &[1u8; 32]);
    let parsed = parse(&bytes).unwrap();
    assert_eq!(parsed.caveats, vec![caveat]);
}

#[test]
fn parse_rejects_malformed_input() {
    let good = token(b"key", &[b"type = access"], &[7u8; 32]);
    assert!(parse(&good).is_some());
    // Never panics, whatever is cut off.
    for length in 0..good.len() {
        assert!(parse(&good[..length]).is_none());
    }
    let mut trailing = good.clone();
    trailing.push(b'\n');
    assert!(parse(&trailing).is_none());
    assert!(parse(b"").is_none());
    assert!(parse(b"0000").is_none());
    assert!(parse(b"0004").is_none());
    assert!(parse(b"ffff").is_none());
    assert!(parse(b"+013identifier key\n").is_none());
    // A signature of the wrong length.
    assert!(parse(&token(b"key", &[], &[7u8; 31])).is_none());
    assert!(parse(&token(b"key", &[], &[7u8; 33])).is_none());
    // No signature, no identifier, or the wrong order.
    assert!(parse(&packet(b"identifier", b"key")).is_none());
    assert!(parse(&packet(b"signature", &[7u8; 32])).is_none());
    let mut swapped = packet(b"signature", &[7u8; 32]);
    swapped.extend(packet(b"identifier", b"key"));
    assert!(parse(&swapped).is_none());
    let mut after = token(b"key", &[], &[7u8; 32]);
    after.extend(packet(b"cid", b"type = access"));
    assert!(parse(&after).is_none());
    // Upper-case hex digits, unknown fields, a location.
    let mut upper = packet(b"identifier", b"key");
    upper.extend(b"002Fsignature ".iter());
    upper.extend([7u8; 32]);
    upper.push(b'\n');
    assert!(parse(&upper).is_none());
    let mut unknown = packet(b"identifier", b"key");
    unknown.extend(packet(b"vid", b"x"));
    unknown.extend(packet(b"signature", &[7u8; 32]));
    assert!(parse(&unknown).is_none());
    let mut located = packet(b"location", b"here");
    located.extend(token(b"key", &[], &[7u8; 32]));
    assert!(parse(&located).is_none());
    // A length that lies about the packet.
    let mut lying = good.clone();
    lying[3] = b'4';
    assert!(parse(&lying).is_none());
}

fn instant_to_text(at: Instant) -> Option<Vec<u8>> {
    Caveat::ExpiresBefore(at).encode().map(|text| text[b"time < ".len()..].to_vec())
}

fn instant_from_text(text: &[u8]) -> Option<Instant> {
    let mut caveat = b"time < ".to_vec();
    caveat.extend_from_slice(text);
    match Caveat::decode(&caveat) {
        Some(Caveat::ExpiresBefore(at)) => Some(at),
        _ => None,
    }
}

#[test]
fn instant_text() {
    let at = Instant { secs: 1431648000, nanos: 0 };
    assert_eq!(instant_to_text(at).unwrap(), b"2015-05-15 00:00:00 UTC".to_vec());
    let fine = Instant { secs: 1431648000, nanos: 123_456_789 };
    assert_eq!(instant_to_text(fine).unwrap(), b"2015-05-15 00:00:00.123456789 UTC".to_vec());
    let epoch = Instant { secs: 0, nanos: 0 };
    assert_eq!(instant_to_text(epoch).unwrap(), b"1970-01-01 00:00:00 UTC".to_vec());
    assert!(instant_to_text(Instant { secs: i64::MAX, nanos: 0 }).is_none());
    assert!(instant_to_text(Instant { secs: i64::MIN, nanos: 0 }).is_none());
}

#[test]
fn instant_from_its_text() {
    assert_eq!(
        instant_from_text(b"2015-05-15 00:00:00 UTC"),
        Some(Instant { secs: 1431648000, nanos: 0 })
    );
    assert_eq!(
        instant_from_text(b"2015-05-15 00:00:00.123456789 UTC"),
        Some(Instant { secs: 1431648000, nanos: 123_456_789 })
    );
    assert_eq!(instant_from_text(b""), None);
    assert_eq!(instant_from_text(b"never"), None);
    assert_eq!(instant_from_text(b"2015-05-15"), None);
    assert_eq!(instant_from_text(&[0xff, 0xfe]), None);
}

#[test]
fn instant_text_round_trip() {
    for (secs, nanos) in [
        (0, 0),
        (-1, 999_999_999),
        (1431648000, 1),
        (1431648000, 1_000),
        (1431648000, 1_000_000),
        (253402300799, 999_999_999),
        (253402300800, 0),
        (-62167219200, 0),
        (-62167219201, 0),
        (4102444800, 500_000_000),
        (8210266876799, 0),
        (1483228799, 1_500_000_000),
        (-8334601228800, 0),
    ] {
        let at = Instant { secs, nanos };
        let text = instant_to_text(at).unwrap();
        assert_eq!(instant_from_text(&text), Some(at));
    }
}

#[test]
fn instants_compare_and_add() {
    let a = Instant { secs: 10, nanos: 5 };
    assert!(a.is_before(&Instant { secs: 11, nanos: 0 }));
    assert!(a.is_before(&Instant { secs: 10, nanos: 6 }));
    assert!(!a.is_before(&a));
    assert!(!a.is_before(&Instant { secs: 10, nanos: 4 }));
    assert!(!a.is_before(&Instant { secs: 9, nanos: 9 }));
    assert_eq!(a.plus_seconds(3600), Some(Instant { secs: 3610, nanos: 5 }));
    assert_eq!(a.plus_seconds(-20), Some(Instant { secs: -10, nanos: 5 }));
    assert_eq!(a.plus_seconds(i64::MAX), None);
    assert_eq!(Instant { secs: -10, nanos: 0 }.plus_seconds(i64::MIN), None);
    assert_eq!(
        Instant { secs: i64::MAX - 1, nanos: 0 }.plus_seconds(1),
        Some(Instant { secs: i64::MAX, nanos: 0 })
    );
}
