use rust_discord_bot::thanks::{compose_thanks_reply, mentions_thanks, thanks_reply};

const ALL_REPLIES: [&str; 4] = [
    "Glad to assist you, <@42>!",
    "Glad to assist you!",
    "You're welcome, <@42>, happy to help!",
    "You're welcome, happy to help!",
];

#[test]
fn recognizes_thanks() {
    assert!(mentions_thanks("thanks @rust_discord_bot"));
    assert!(mentions_thanks("well, thanks <@rust_discord_bot_id> a lot"));
    assert!(!mentions_thanks("thanks everyone"));
    assert!(!mentions_thanks(""));
}

#[test]
fn composed_replies() {
    let lowered = "thanks @rust_discord_bot";
    assert_eq!(compose_thanks_reply(lowered, "<@42>", 0, true).unwrap(), ALL_REPLIES[0]);
    assert_eq!(compose_thanks_reply(lowered, "<@42>", 0, false).unwrap(), ALL_REPLIES[1]);
    assert_eq!(compose_thanks_reply(lowered, "<@42>", 1, true).unwrap(), ALL_REPLIES[2]);
    assert_eq!(compose_thanks_reply(lowered, "<@42>", 1, false).unwrap(), ALL_REPLIES[3]);
    assert_eq!(compose_thanks_reply("hello", "<@42>", 1, false), None);
}

#[test]
fn reply_matches_regardless_of_case() {
    for _ in 0..20 {
        let r = thanks_reply("THANKS @Rust_Discord_Bot!", "<@42>").unwrap();
        assert!(ALL_REPLIES.contains(&r.as_str()), "{r}");
    }
}

#[test]
fn no_reply_without_thanks() {
    assert_eq!(thanks_reply("good morning", "<@42>"), None);
    assert_eq!(thanks_reply("thanks @someone_else", "<@42>"), None);
}
