//! Handling one qualifying message: renormalize the author's stored standing,
//! add the experience the message earns, and say what to announce.
use vstd::prelude::*;
use crate::chance::random_in;
use crate::progression::{apply_spec, requirement, xp_to_next_spec, Xp};
use crate::text::{decimal_text, int_text};

verus! {

/// The least experience a message earns.
pub const MIN_XP_GAIN: u32 = 5;

/// The most experience a message earns.
pub const MAX_XP_GAIN: u32 = 10;

/// A user's standing after a message.
#[derive(Clone, Copy, Debug, PartialEq, Eq, Structural)]
pub struct ActivityOutcome {
    /// The new level.
    pub level: u32,
    /// The new progress towards the next level.
    pub progress: u32,
    /// Levels gained by this message.
    pub levels_gained: u32,
    /// Experience still missing to complete the new level.
    pub xp_to_next: u32,
}

/// The standing after gaining `gain` experience on the stored pair
/// `(stored_level, stored_xp)`, which is renormalized first: its new level,
/// progress, levels gained by the gain and the experience to the next level.
pub open spec fn activity_spec(stored_xp: nat, stored_level: nat, gain: nat) -> (
    nat,
    nat,
    nat,
    nat,
) {
    let normalized = apply_spec(stored_level, stored_xp, 0);
    let after = apply_spec(normalized.0, normalized.1, gain);
    (after.0, after.1, after.2, xp_to_next_spec(after.0, after.1))
}

/// Whether `o` is the outcome of gaining `gain` experience on the stored pair.
pub open spec fn is_outcome(o: ActivityOutcome, stored_xp: nat, stored_level: nat, gain: nat) -> bool {
    let s = activity_spec(stored_xp, stored_level, gain);
    &&& o.level == s.0
    &&& o.progress == s.1
    &&& o.levels_gained == s.2
    &&& o.xp_to_next == s.3
}

/// Renormalizes the stored pair, then gains `gain` experience.
pub fn apply_activity(stored_xp: u32, stored_level: u32, gain: u32) -> (r: ActivityOutcome)
    ensures
        is_outcome(r, stored_xp as nat, stored_level as nat, gain as nat),
{
    let (level, progress, _) = Xp::apply(stored_level, stored_xp, 0);
    let (level, progress, levels_gained) = Xp::apply(level, progress, gain);
    let xp_to_next = Xp::xp_to_next(level, progress);
    ActivityOutcome { level, progress, levels_gained, xp_to_next }
}

/// Handles a message: `None` for a message from a bot; otherwise the outcome
/// of a gain drawn at random from `MIN_XP_GAIN..=MAX_XP_GAIN`.
pub fn on_activity(is_bot: bool, stored_xp: u32, stored_level: u32) -> (r: Option<ActivityOutcome>)
    ensures
        r is None <==> is_bot,
        r is Some ==> exists|gain: nat|
            MIN_XP_GAIN <= gain <= MAX_XP_GAIN && #[trigger] is_outcome(
                r->0,
                stored_xp as nat,
                stored_level as nat,
                gain,
            ),
{
    if is_bot {
        return None;
    }
    let gain = random_in(MIN_XP_GAIN, MAX_XP_GAIN);
    let outcome = apply_activity(stored_xp, stored_level, gain);
    let r = Some(outcome);
    assert(is_outcome(r->0, stored_xp as nat, stored_level as nat, gain as nat));
    r
}

/// The announcement of an outcome that gained levels.
pub open spec fn level_up_message(levels: nat, level: nat, left: nat) -> Seq<char> {
    if levels == 1 {
        "Level up. You reached level "@ + decimal_text(level as int) + ". "@ + decimal_text(
            left as int,
        ) + " XP to next level."@
    } else {
        "Massive gains. +"@ + decimal_text(levels as int) + " levels. You are now level "@
            + decimal_text(level as int) + ". "@ + decimal_text(left as int)
            + " XP to next level."@
    }
}

/// The announcement of `o`, where it gained levels.
pub fn level_up_text(o: &ActivityOutcome) -> (r: Option<String>)
    ensures
        r is None <==> o.levels_gained == 0,
        r is Some ==> r->0@ == level_up_message(
            o.levels_gained as nat,
            o.level as nat,
            o.xp_to_next as nat,
        ),
{
    if o.levels_gained == 0 {
        return None;
    }
    let level = int_text(o.level as i64);
    let left = int_text(o.xp_to_next as i64);
    let mut text = if o.levels_gained == 1 {
        String::from_str("Level up. You reached level ")
    } else {
        let mut t = String::from_str("Massive gains. +");
        let levels = int_text(o.levels_gained as i64);
        t.append(levels.as_str());
        t.append(" levels. You are now level ");
        t
    };
    text.append(level.as_str());
    text.append(". ");
    text.append(left.as_str());
    text.append(" XP to next level.");
    Some(text)
}

/// What a user's stats show: the renormalized level and progress, the
/// requirement of that level and the experience still missing.
#[derive(Clone, Copy, Debug, PartialEq, Eq, Structural)]
pub struct Stats {
    pub level: u32,
    pub progress: u32,
    pub requirement: u32,
    pub xp_to_next: u32,
}

/// The stats of the stored pair `(stored_level, stored_xp)`.
pub fn stats_for(stored_xp: u32, stored_level: u32) -> (r: Stats)
    ensures
        ({
            let n = apply_spec(stored_level as nat, stored_xp as nat, 0);
            &&& r.level == n.0
            &&& r.progress == n.1
            &&& r.requirement == requirement(n.0)
            &&& r.xp_to_next == xp_to_next_spec(n.0, n.1)
        }),
{
    let (level, progress, _) = Xp::apply(stored_level, stored_xp, 0);
    Stats {
        level,
        progress,
        requirement: Xp::req_for(level),
        xp_to_next: Xp::xp_to_next(level, progress),
    }
}

} // verus!
