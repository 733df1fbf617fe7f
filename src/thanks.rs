//! The automatic answer to a message that thanks the bot.
use vstd::prelude::*;
use crate::chance::{coin_flip, random_in};
use crate::text::{contains_text, occurs_in};

verus! {

/// The text of `s` in lower case, by Unicode's rules.
pub uninterp spec fn lower_of(s: Seq<char>) -> Seq<char>;

/// Relies on `str::to_lowercase`: the lower-case form of `s`, which depends
/// on the characters of `s` alone.
#[verifier::external_body]
fn lowercase(s: &str) -> (r: String)
    ensures
        r@ == lower_of(s@),
{
    s.to_lowercase()
}

/// How many answers there are to choose from.
pub const THANKS_RESPONSES: usize = 2;

/// Whether the lower-cased message `lowered` thanks the bot.
pub open spec fn is_thanks(lowered: Seq<char>) -> bool {
    occurs_in(lowered, "thanks <@rust_discord_bot_id>"@) || occurs_in(
        lowered,
        "thanks @rust_discord_bot"@,
    )
}

/// The answer numbered `pick`, addressed to `mention` or to nobody.
pub open spec fn thanks_text(pick: int, mention: Seq<char>, with_mention: bool) -> Seq<char> {
    let head = if pick == 0 {
        "Glad to assist you"@
    } else {
        "You're welcome"@
    };
    let tail = if pick == 0 {
        "!"@
    } else {
        ", happy to help!"@
    };
    if with_mention {
        head + ", "@ + mention + tail
    } else {
        head + tail
    }
}

/// Whether the lower-cased message `lowered` thanks the bot.
pub fn mentions_thanks(lowered: &str) -> (r: bool)
    ensures
        r == is_thanks(lowered@),
{
    contains_text(lowered, "thanks <@rust_discord_bot_id>") || contains_text(
        lowered,
        "thanks @rust_discord_bot",
    )
}

/// The answer numbered `pick` to a lower-cased message `lowered`, addressed to
/// `mention` where `with_mention` holds; `None` where the message does not
/// thank the bot.
pub fn compose_thanks_reply(lowered: &str, mention: &str, pick: usize, with_mention: bool) -> (r:
    Option<String>)
    requires
        pick < THANKS_RESPONSES,
    ensures
        r is Some <==> is_thanks(lowered@),
        r is Some ==> r->0@ == thanks_text(pick as int, mention@, with_mention),
{
    if !mentions_thanks(lowered) {
        return None;
    }
    let mut text = if pick == 0 {
        String::from_str("Glad to assist you")
    } else {
        String::from_str("You're welcome")
    };
    if with_mention {
        text.append(", ");
        text.append(mention);
    }
    if pick == 0 {
        text.append("!");
    } else {
        text.append(", happy to help!");
    }
    Some(text)
}

/// The answer to the message `content` from the author written `mention`:
/// `None` unless the message, in lower case, thanks the bot; otherwise one of
/// the answers, chosen at random, addressed to the author or not, at random.
pub fn thanks_reply(content: &str, mention: &str) -> (r: Option<String>)
    ensures
        r is Some <==> is_thanks(lower_of(content@)),
        r is Some ==> exists|pick: int, with_mention: bool|
            0 <= pick < THANKS_RESPONSES && r->0@ == #[trigger] thanks_text(
                pick,
                mention@,
                with_mention,
            ),
{
    let lowered = lowercase(content);
    if !mentions_thanks(lowered.as_str()) {
        return None;
    }
    let pick = random_in(0, (THANKS_RESPONSES - 1) as u32) as usize;
    let with_mention = coin_flip();
    compose_thanks_reply(lowered.as_str(), mention, pick, with_mention)
}

} // verus!
