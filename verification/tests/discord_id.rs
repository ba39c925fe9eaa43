use aekosia::discord_id::DiscordId;

#[test]
fn discord_id_is_eight_bytes_highest_first() {
    let id = DiscordId::from(153_555_060_926_840_833_u64);
    assert_eq!(id.as_bytes(), &[2, 33, 137, 131, 172, 2, 0, 1]);
    assert_eq!(id.as_bytes(), &153_555_060_926_840_833_u64.to_be_bytes());
    assert_eq!(DiscordId::from(1).as_bytes(), &[0, 0, 0, 0, 0, 0, 0, 1]);
    assert_eq!(DiscordId::from(u64::MAX).as_bytes(), &[255; 8]);
}

#[test]
fn discord_id_goes_back_to_its_number() {
    for v in [0_u64, 1, 222, 256, 65_535, 153_555_060_926_840_833, u64::MAX] {
        let id = DiscordId::from(v);
        assert_eq!(id.to_u64(), v);
        assert_eq!(u64::from(&id), v);
        assert_eq!(u64::from(id), v);
    }
}

#[test]
fn discord_id_from_the_bytes_of_the_store() {
    let id = DiscordId::from_vec(vec![2, 33, 137, 131, 172, 2, 0, 1]);
    assert_eq!(id.to_u64(), 153_555_060_926_840_833);
    assert_eq!(id.as_bytes(), &[2, 33, 137, 131, 172, 2, 0, 1]);
    let id = DiscordId::from_vec(u64::MAX.to_be_bytes().to_vec());
    assert_eq!(id.to_u64(), u64::MAX);
}

#[test]
fn discord_id_is_written_in_decimal() {
    assert_eq!(DiscordId::from(222).to_string(), "222");
    assert_eq!(DiscordId::from(0).to_string(), "0");
    assert_eq!(
        DiscordId::from(u64::MAX).to_string(),
        "18446744073709551615"
    );
}
