use runbot::model::channel_id::ChannelID;
use runbot::model::guild_id::GuildID;

#[test]
fn ids_round_trip() {
    assert_eq!(ChannelID::from_u64(7).as_u64(), 7);
    assert_eq!(GuildID::from_u64(u64::MAX).as_u64(), u64::MAX);
}
