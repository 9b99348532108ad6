use cluster::snowflake::{
    _v, parse_id, parse_id_base57, pow, to_str, to_str_base57, IdStep, Snowflake,
};

#[test]
fn test_parse_id() {
    let id = parse_id_base57("3vTErqVS35");
    println!("3vTErqVS35->{id:?}");
}

#[test]
fn base57_value_of_a_known_text() {
    let mut expected: i64 = 0;
    let alphabet = "23456789ABCDEFGHJKLMNPQRSTUVWXYZabcdefghijkmnopqrstuvwxyz";
    for c in "3vTErqVS35".chars() {
        expected = expected * 57 + alphabet.find(c).unwrap() as i64;
    }
    assert_eq!(parse_id_base57("3vTErqVS35"), Some(expected));
    assert_eq!(to_str_base57(expected), "3vTErqVS35");
}

#[test]
fn base33_text() {
    assert_eq!(to_str(0), "");
    assert_eq!(to_str(-5), "");
    assert_eq!(to_str(1), "3");
    assert_eq!(to_str(33), "32");
    assert_eq!(parse_id("32"), Some(33));
    assert_eq!(parse_id(""), Some(0));
    assert_eq!(parse_id("0"), None);
    assert_eq!(parse_id("A"), None);
    assert_eq!(parse_id("zzzzzzzzzzzzzzzzzzzzzzzz"), None);
    for id in [1i64, 32, 1234567890123, i64::MAX] {
        assert_eq!(parse_id(&to_str(id)), Some(id));
        assert_eq!(parse_id_base57(&to_str_base57(id)), Some(id));
    }
}

#[test]
fn bit_fields() {
    assert_eq!(pow(2, 10), 1024);
    assert_eq!(pow(3, 0), 1);
    assert_eq!(_v(5, 2, 3), 8);
    assert_eq!(_v(-1, 12, 0), 4095);
    assert_eq!(_v(1, 41, 22), 1 << 22);
}

#[test]
fn snowflake_steps() {
    let mut s = Snowflake::new(5);
    assert_eq!(s.worker_id(), 5);
    assert_eq!(s.next_id_at(100), IdStep::Issue((100 << 22) | (5 << 12)));
    assert_eq!(s.next_id_at(100), IdStep::Issue((100 << 22) | (5 << 12) | 1));
    assert_eq!(s.next_id_at(99), IdStep::Wait);
    assert_eq!(s.next_id_at(101), IdStep::Issue((101 << 22) | (5 << 12)));
    assert_eq!(Snowflake::new(1029).worker_id(), 5);
    assert_eq!(Snowflake::new(-3).worker_id(), -3);
}

#[test]
fn sequence_exhaustion_waits_for_the_next_millisecond() {
    let mut s = Snowflake::new(1);
    let mut last = 0;
    for _ in 0..4096 {
        match s.next_id_at(7) {
            IdStep::Issue(id) => {
                assert!(id > last);
                last = id;
            }
            IdStep::Wait => panic!("sequence ran out early"),
        }
    }
    assert_eq!(s.next_id_at(7), IdStep::Wait);
    assert_eq!(s.next_id_at(8), IdStep::Issue((8 << 22) | (1 << 12)));
}
