use cluster::xid::{decode_char, machine_bytes, pid_from, DecodeError, Generator, Id};

fn generator() -> Generator {
    Generator::new(machine_bytes("test-host"), 4242)
}

#[test]
fn test_new() {
    let mut g = generator();
    let mut ids = Vec::new();
    for _ in 0..10 {
        ids.push(g.new_id());
    }

    for i in 1..10 {
        // Test for uniqueness among all other 9 generated ids
        for j in 0..10 {
            if i != j {
                assert_ne!(ids[i], ids[j]);
            }
        }

        let id = &ids[i];
        let prev_id = &ids[i - 1];
        // Check that timestamp was incremented and is within 5 seconds of the previous one
        let secs = id.time() - prev_id.time();
        assert!(secs <= 5);
        // Check that machine ids are the same
        assert_eq!(id.machine(), prev_id.machine());
        // Check that pids are the same
        assert_eq!(id.pid(), prev_id.pid());
        // Test for proper increment
        assert_eq!(id.counter() - prev_id.counter(), 1);
        let s = id.to_string();
        println!("{s}");
    }
}

#[test]
fn test_from_str() {
    // test parse id from string
    let id = generator().new_id();
    let id_str = id.to_string();
    let parsed_id = Id::from_str(&id_str).unwrap();
    assert_eq!(id, parsed_id);

    // test invalid length
    let short_str = "abc";
    let result = Id::from_str(short_str);
    assert!(result.is_err());

    // test invalid characters
    let invalid_str = "invalid_characters_here";
    let result = Id::from_str(invalid_str);
    assert!(result.is_err());
}

#[test]
fn known_id_text() {
    let raw = [0x4d, 0x88, 0xe1, 0x5b, 0x60, 0xf4, 0x86, 0xe4, 0x28, 0x41, 0x2d, 0xc9];
    let id = Id(raw);
    assert_eq!(id.to_string(), "9m4e2mr0ui3e8a215n4g");
    assert_eq!(Id::from_str("9m4e2mr0ui3e8a215n4g"), Ok(id));
    assert_eq!(id.time(), 0x4d88e15b);
    assert_eq!(id.machine(), [0x60, 0xf4, 0x86]);
    assert_eq!(id.pid(), 0xe428);
    assert_eq!(id.counter(), 0x412dc9);
    assert_eq!(id.as_bytes(), &raw);
    assert_eq!(Id([0; 12]).to_string(), "00000000000000000000");
    assert_eq!(Id([0xff; 12]).to_string(), "vvvvvvvvvvvvvvvvvvvg");
}

#[test]
fn decode_errors() {
    assert_eq!(Id::from_str("abc"), Err(DecodeError::InvalidLength(3)));
    assert_eq!(
        Id::from_str("9m4e2mr0ui3e8a215n4z"),
        Err(DecodeError::InvalidCharacter('z', 0))
    );
    assert_eq!(
        Id::from_str("9m4E2mr0ui3e8a21Xn4g"),
        Err(DecodeError::InvalidCharacter('E', 0))
    );
    assert_eq!(decode_char(b'0'), Ok(0));
    assert_eq!(decode_char(b'v'), Ok(31));
    assert_eq!(decode_char(b'w'), Err(DecodeError::InvalidCharacter('w', 0)));
}

#[test]
fn generator_lays_out_time_machine_pid_counter() {
    let mut g = Generator::new([1, 2, 3], 0x0405);
    let a = g.with_time(0x1_0000_0007);
    let b = g.with_time(8);
    assert_eq!(a.time(), 7);
    assert_eq!(a.machine(), [1, 2, 3]);
    assert_eq!(a.pid(), 0x0405);
    assert!(a.counter() < 0x100_0000);
    assert_eq!((b.counter() + 0x100_0000 - a.counter()) % 0x100_0000, 1);
    assert_eq!(b.time(), 8);
}

#[test]
fn pid_and_machine_id_derivation() {
    assert_eq!(pid_from(0x12345, None), 0x2345);
    assert_eq!(pid_from(0x12345, Some(vec![7])), 0x2345);
    let cpuset = b"/docker/abc\n".to_vec();
    let mut h = crc32fast::Hasher::new();
    h.update(&cpuset);
    let expected = ((0x12345u32 ^ h.finalize()) & 0xffff) as u16;
    assert_eq!(pid_from(0x12345, Some(cpuset)), expected);
    let digest = md5::compute("test-host");
    assert_eq!(machine_bytes("test-host"), [digest[0], digest[1], digest[2]]);
}
