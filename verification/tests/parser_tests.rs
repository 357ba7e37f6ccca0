use ticket_engine::parser::{parse_discord_channel_id_url, parse_discord_mention, parse_u64_digits};

#[test]
fn test_parse_discord_channel_id_url() {
    let url = "https://discord.com/channels/123456789/987654321";
    let channel_id = parse_discord_channel_id_url(url);
    assert_eq!(channel_id, Some(987654321));
}

#[test]
fn test_parse_discord_channel_id_url_no_id() {
    let url = "https://discord.com/channels/123456789/";
    let channel_id = parse_discord_channel_id_url(url);
    assert_eq!(channel_id, None);
}

#[test]
fn test_parse_discord_channel_simple_code() {
    let url = "987654321";
    let channel_id = parse_discord_channel_id_url(url);
    assert_eq!(channel_id, Some(987654321));
}

#[test]
fn test_parse_discord_mention() {
    let mention = "<@123456789>";
    let id = parse_discord_mention(mention);
    assert_eq!(id, Some(123456789));
}

#[test]
fn test_parse_mention_kinds() {
    assert_eq!(parse_discord_mention("<@!123456789>"), Some(123456789));
    assert_eq!(parse_discord_mention("<@&42>"), Some(42));
    assert_eq!(parse_discord_mention("123456789"), Some(123456789));
    assert_eq!(parse_discord_mention("<@>"), None);
    assert_eq!(parse_discord_mention("not a mention"), None);
    assert_eq!(parse_discord_mention("<@12a34>"), None);
}

#[test]
fn test_parse_url_edge_cases() {
    assert_eq!(parse_discord_channel_id_url(""), None);
    assert_eq!(parse_discord_channel_id_url("abc/def"), None);
    assert_eq!(parse_discord_channel_id_url("a/b/42"), Some(42));
    // a value that cannot fit in 64 bits is rejected, not wrapped
    assert_eq!(parse_discord_channel_id_url("99999999999999999999999999"), None);
}

#[test]
fn test_parse_u64_digits_bounds() {
    assert_eq!(parse_u64_digits("0"), Some(0));
    assert_eq!(parse_u64_digits("18446744073709551615"), Some(u64::MAX));
    assert_eq!(parse_u64_digits("18446744073709551616"), None);
    assert_eq!(parse_u64_digits(""), None);
    assert_eq!(parse_u64_digits("12 34"), None);
}
