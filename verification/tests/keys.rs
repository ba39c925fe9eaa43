use aekosia::key::Key;
use aekosia::timestamp::UUIDTime;
use uuid::Uuid;

const KNOWN: u128 = 0x0184_4ffb_50ee_7275_af11_e47e_51bc_92e7;

#[test]
fn generated_key_is_of_version_seven() {
    let key = Key::generate();
    assert_eq!(Uuid::from_u128(key.bits).get_version_num(), 7);
    assert_eq!((key.bits >> 76) & 0xf, 7);
}

#[test]
fn generated_keys_differ_and_sort_by_time() {
    let first = Key::generate();
    let second = Key::generate();
    assert_ne!(first, second);
    assert!(first.bits < second.bits);
}

#[test]
fn simple_form_is_thirty_two_hex_digits() {
    let key = Key { bits: KNOWN };
    assert_eq!(key.to_simple_string(), "01844ffb50ee7275af11e47e51bc92e7");
    assert_eq!(
        Key { bits: 0 }.to_simple_string(),
        "00000000000000000000000000000000"
    );
    assert_eq!(
        Key { bits: u128::MAX }.to_simple_string(),
        "ffffffffffffffffffffffffffffffff"
    );
    assert_eq!(
        Key { bits: 0xABCDEF }.to_simple_string(),
        "00000000000000000000000000abcdef"
    );
}

#[test]
fn simple_form_agrees_with_uuid() {
    for bits in [0_u128, 1, KNOWN, u128::MAX, 0x0123_4567_89ab_cdef_0123_4567_89ab_cdef] {
        assert_eq!(
            Key { bits }.to_simple_string(),
            Uuid::from_u128(bits).as_simple().to_string()
        );
    }
}

#[test]
fn parse_str_reads_each_form() {
    let key = Key { bits: KNOWN };
    assert_eq!(Key::parse_str("01844ffb50ee7275af11e47e51bc92e7"), Ok(key));
    assert_eq!(
        Key::parse_str("01844ffb-50ee-7275-af11-e47e51bc92e7"),
        Ok(key)
    );
    assert_eq!(
        Key::parse_str("01844FFB-50EE-7275-AF11-E47E51BC92E7"),
        Ok(key)
    );
    assert_eq!(
        Key::parse_str("{01844ffb-50ee-7275-af11-e47e51bc92e7}"),
        Ok(key)
    );
    assert_eq!(
        Key::parse_str("urn:uuid:01844ffb-50ee-7275-af11-e47e51bc92e7"),
        Ok(key)
    );
}

#[test]
fn parse_str_reads_back_the_simple_form() {
    for bits in [0_u128, 1, KNOWN, u128::MAX] {
        let key = Key { bits };
        assert_eq!(Key::parse_str(&key.to_simple_string()), Ok(key));
    }
    let made = Key::generate();
    assert_eq!(Key::parse_str(&made.to_simple_string()), Ok(made));
}

#[test]
fn parse_str_says_what_is_wrong() {
    for text in ["", "xyz", "01844ffb50ee7275af11e47e51bc92e", "01844ffb50ee7275af11e47e51bc92eg"] {
        let error = Key::parse_str(text).unwrap_err();
        assert_eq!(error, Uuid::parse_str(text).unwrap_err().to_string());
        assert!(!error.is_empty());
    }
}

#[test]
fn unix_seconds_of_a_key_of_version_seven() {
    let key = Key { bits: KNOWN };
    assert_eq!(key.unix_seconds(), Some(1_667_789_181));
    assert_eq!(key.unix_seconds(), Some(((KNOWN >> 80) / 1000) as u64));
}

#[test]
fn unix_seconds_only_where_a_time_is_held() {
    assert_eq!(Key { bits: 0 }.unix_seconds(), None);
    assert_eq!(Key { bits: u128::MAX }.unix_seconds(), None);
    let random = Key { bits: 0x550e_8400_e29b_41d4_a716_4466_5544_0000 };
    assert_eq!(random.unix_seconds(), None);
    let by_clock = Key { bits: 0xc232_ab00_9414_11ec_b3c8_9f6b_dece_d846 };
    assert!(by_clock.unix_seconds().is_some());
    let sorted = Key { bits: 0x1ec9_414c_232a_6b00_b3c8_9f6b_dece_d846 };
    assert!(sorted.unix_seconds().is_some());
}

#[test]
fn unix_seconds_of_a_new_key_is_now() {
    let before = std::time::SystemTime::now()
        .duration_since(std::time::UNIX_EPOCH)
        .unwrap()
        .as_secs();
    let seconds = Key::generate().unix_seconds().unwrap();
    assert!(seconds + 5 >= before);
    assert!(seconds <= before + 5);
}

#[test]
fn uuid_time_of_a_key() {
    let time = UUIDTime::from_key(Key { bits: KNOWN });
    assert_eq!(time.to_unix_sec(), 1_667_789_181);
    assert_eq!(time.to_string(), "1667789181");
    let made = UUIDTime::from_key(Key::generate());
    assert!(made.to_unix_sec() > 1_667_789_181);
}

#[test]
fn unix_seconds_by_version() {
    let mut seed: u128 = 0x9e37_79b9_7f4a_7c15_f39c_c060_5ced_c834;
    for _ in 0..200 {
        seed = seed
            .wrapping_mul(0x2545_f491_4f6c_dd1d_0000_0000_0000_0001)
            .wrapping_add(0x1405_7b7e_f767_814f);
        for version in 0..16_u128 {
            let bits = (seed & !(0xf << 76)) | (version << 76);
            let seconds = Key { bits }.unix_seconds();
            assert_eq!(
                seconds.is_some(),
                version == 1 || version == 6 || version == 7,
                "{:032x}",
                bits
            );
            if version == 7 {
                assert_eq!(seconds, Some(((bits >> 80) / 1000) as u64));
            }
            assert_eq!(
                Key { bits }.to_simple_string(),
                format!("{:032x}", bits)
            );
            assert_eq!(Key::parse_str(&format!("{:032X}", bits)), Ok(Key { bits }));
        }
    }
}
