//! The three tiers of enthusiasm and the message that goes with each.

use vstd::prelude::*;

verus! {

/// How enthusiastic an excitement level is.
#[derive(Clone, Copy, Debug, PartialEq, Eq, Structural)]
pub enum Tier {
    /// Levels from 8 upwards.
    High,
    /// Levels 5, 6 and 7.
    Moderate,
    /// Levels below 5.
    Low,
}

/// The message for the high tier.
pub const HIGH_MESSAGE: &'static str = "🔥 You're super hyped! Let's dive deep into Rust!";

/// The message for the moderate tier.
pub const MODERATE_MESSAGE: &'static str = "🙂 Nice! You're curious and ready to learn.";

/// The message for the low tier.
pub const LOW_MESSAGE: &'static str = "😅 Don’t worry, Rust will grow on you!";

impl Tier {
    /// The tier of an excitement level: the thresholds are 8 and 5, and a
    /// level on a threshold belongs to the tier above it.
    pub open spec fn of_level(level: int) -> Tier {
        if level >= 8 {
            Tier::High
        } else if level >= 5 {
            Tier::Moderate
        } else {
            Tier::Low
        }
    }

    /// The text of the message for this tier.
    pub open spec fn text(self) -> Seq<char> {
        match self {
            Tier::High => HIGH_MESSAGE@,
            Tier::Moderate => MODERATE_MESSAGE@,
            Tier::Low => LOW_MESSAGE@,
        }
    }

    /// Selects the tier of an excitement level.
    pub fn select(level: i32) -> (tier: Tier)
        ensures
            tier == Tier::of_level(level as int),
            tier is High <==> level >= 8,
            tier is Moderate <==> 5 <= level < 8,
            tier is Low <==> level < 5,
    {
        if level >= 8 {
            Tier::High
        } else if level >= 5 {
            Tier::Moderate
        } else {
            Tier::Low
        }
    }

    /// The message for this tier.
    pub fn message(self) -> (text: &'static str)
        ensures
            text@ == self.text(),
    {
        match self {
            Tier::High => HIGH_MESSAGE,
            Tier::Moderate => MODERATE_MESSAGE,
            Tier::Low => LOW_MESSAGE,
        }
    }
}

/// On the scale from 1 to 10 the tiers fall as follows: 8, 9 and 10 are
/// high, 5, 6 and 7 are moderate, and 1, 2, 3 and 4 are low.
pub proof fn lemma_tiers_of_the_scale(level: int)
    requires
        1 <= level <= 10,
    ensures
        Tier::of_level(level) == Tier::High <==> level == 8 || level == 9 || level == 10,
        Tier::of_level(level) == Tier::Moderate <==> level == 5 || level == 6 || level == 7,
        Tier::of_level(level) == Tier::Low <==> level == 1 || level == 2 || level == 3 || level
            == 4,
{
}

/// No two tiers share a message, so the message tells the tier.
pub proof fn lemma_messages_differ(a: Tier, b: Tier)
    requires
        a != b,
    ensures
        a.text() != b.text(),
{
    reveal_strlit("🔥 You're super hyped! Let's dive deep into Rust!");
    reveal_strlit("🙂 Nice! You're curious and ready to learn.");
    reveal_strlit("😅 Don’t worry, Rust will grow on you!");
    assert(HIGH_MESSAGE@[0] == '🔥');
    assert(MODERATE_MESSAGE@[0] == '🙂');
}

} // verus!
