use homeserver_auth::caveat::{check_caveats, Caveat};
use homeserver_auth::clock::Instant;

/// 2015-05-15 00:00:00 UTC
const T0: Instant = Instant { secs: 1431648000, nanos: 0 };

fn decode(text: &[u8]) -> Option<Caveat> {
    Caveat::decode(text)
}

#[test]
fn caveats_have_their_text() {
    assert_eq!(
        Caveat::UserId(b"@carl:example.org".to_vec()).encode().unwrap(),
        b"user_id = @carl:example.org".to_vec()
    );
    assert_eq!(Caveat::AccessType.encode().unwrap(), b"type = access".to_vec());
    assert_eq!(
        Caveat::ExpiresBefore(Instant { secs: T0.secs + 3600, nanos: 0 }).encode().unwrap(),
        b"time < 2015-05-15 01:00:00 UTC".to_vec()
    );
    assert_eq!(
        Caveat::ExpiresBefore(Instant { secs: T0.secs, nanos: 250_000_000 }).encode().unwrap(),
        b"time < 2015-05-15 00:00:00.250 UTC".to_vec()
    );
    assert_eq!(Caveat::UserId(Vec::new()).encode().unwrap(), b"user_id = ".to_vec());
}

#[test]
fn caveat_of_an_unrepresentable_instant_has_no_text() {
    assert!(Caveat::ExpiresBefore(Instant { secs: i64::MAX, nanos: 0 }).encode().is_none());
    assert!(Caveat::ExpiresBefore(Instant { secs: 0, nanos: u32::MAX }).encode().is_none());
}

#[test]
fn caveats_are_read_from_their_text() {
    match decode(b"user_id = @carl:example.org") {
        Some(Caveat::UserId(identity)) => assert_eq!(identity, b"@carl:example.org".to_vec()),
        other => panic!("unexpected {:?}", other),
    }
    match decode(b"user_id = ") {
        Some(Caveat::UserId(identity)) => assert!(identity.is_empty()),
        other => panic!("unexpected {:?}", other),
    }
    assert!(matches!(decode(b"type = access"), Some(Caveat::AccessType)));
    match decode(b"time < 2015-05-15 01:00:00 UTC") {
        Some(Caveat::ExpiresBefore(at)) => {
            assert_eq!(at, Instant { secs: T0.secs + 3600, nanos: 0 })
        }
        other => panic!("unexpected {:?}", other),
    }
    match decode(b"time < 2015-05-15 00:00:00.000000001 UTC") {
        Some(Caveat::ExpiresBefore(at)) => assert_eq!(at, Instant { secs: T0.secs, nanos: 1 }),
        other => panic!("unexpected {:?}", other),
    }
}

#[test]
fn other_texts_are_no_caveats() {
    assert!(decode(b"").is_none());
    assert!(decode(b"user_id =").is_none());
    assert!(decode(b"User_id = @carl:example.org").is_none());
    assert!(decode(b"type = refresh").is_none());
    assert!(decode(b"type = access ").is_none());
    assert!(decode(b"type = acces").is_none());
    assert!(decode(b"time < ").is_none());
    assert!(decode(b"time < never").is_none());
    assert!(decode(b"time > 2015-05-15 01:00:00 UTC").is_none());
    assert!(decode(b"time < 2015-05-15").is_none());
    assert!(decode(&[0xff, 0x00]).is_none());
}

#[test]
fn caveat_text_round_trip() {
    let caveats = [
        Caveat::UserId(b"@carl:example.org".to_vec()),
        Caveat::UserId(b"type = access".to_vec()),
        Caveat::UserId(vec![0, 255, 10, 32]),
        Caveat::AccessType,
        Caveat::ExpiresBefore(T0),
        Caveat::ExpiresBefore(Instant { secs: -1, nanos: 999_999_999 }),
    ];
    for caveat in caveats {
        let text = caveat.encode().unwrap();
        let again = decode(&text).unwrap();
        assert_eq!(again.encode().unwrap(), text);
        match (caveat, again) {
            (Caveat::UserId(a), Caveat::UserId(b)) => assert_eq!(a, b),
            (Caveat::AccessType, Caveat::AccessType) => {}
            (Caveat::ExpiresBefore(a), Caveat::ExpiresBefore(b)) => assert_eq!(a, b),
            (a, b) => panic!("{:?} became {:?}", a, b),
        }
    }
}

#[test]
fn expiry_is_strict() {
    let list = vec![
        b"user_id = @carl:example.org".to_vec(),
        b"type = access".to_vec(),
        b"time < 2015-05-15 00:00:00.000000001 UTC".to_vec(),
    ];
    assert_eq!(check_caveats(&list, T0), Some(b"@carl:example.org".to_vec()));
    assert_eq!(check_caveats(&list, Instant { secs: T0.secs, nanos: 1 }), None);
    assert_eq!(check_caveats(&list, Instant { secs: T0.secs, nanos: 2 }), None);
    assert_eq!(
        check_caveats(&list, Instant { secs: T0.secs - 1, nanos: u32::MAX }),
        Some(b"@carl:example.org".to_vec())
    );
}

#[test]
fn instants_across_the_calendar_round_trip() {
    // A fixed pseudo-random walk over every instant the calendar can hold.
    let mut state: u64 = 0x2545_f491_4f6c_dd1d;
    let mut step = || {
        state ^= state << 13;
        state ^= state >> 7;
        state ^= state << 17;
        state
    };
    let mut encoded = 0;
    for round in 0..40_000 {
        let secs = (step() % 16_600_000_000_000) as i64 - 8_300_000_000_000;
        let nanos = match round % 4 {
            0 => 0,
            1 => (step() % 1_000) as u32 * 1_000_000,
            2 => (step() % 1_000_000) as u32 * 1_000,
            _ => (step() % 1_000_000_000) as u32,
        };
        let at = Instant { secs, nanos };
        let text = match Caveat::ExpiresBefore(at).encode() {
            Some(text) => text,
            None => continue,
        };
        encoded += 1;
        match decode(&text) {
            Some(Caveat::ExpiresBefore(back)) => assert_eq!(back, at),
            other => panic!("{:?} became {:?}", at, other),
        }
    }
    assert!(encoded > 30_000);
}

#[test]
fn leap_seconds_round_trip() {
    // 2016-12-31 23:59:60.5 UTC
    let at = Instant { secs: 1483228799, nanos: 1_500_000_000 };
    let text = Caveat::ExpiresBefore(at).encode().unwrap();
    assert_eq!(text, b"time < 2016-12-31 23:59:60.500 UTC".to_vec());
    match decode(&text) {
        Some(Caveat::ExpiresBefore(back)) => assert_eq!(back, at),
        other => panic!("unexpected {:?}", other),
    }
    // A leap second is only taken at the end of a minute.
    assert!(Caveat::ExpiresBefore(Instant { secs: 1483228798, nanos: 1_500_000_000 })
        .encode()
        .is_none());
}
