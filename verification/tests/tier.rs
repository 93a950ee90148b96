use greeter::tier::{Tier, HIGH_MESSAGE, LOW_MESSAGE, MODERATE_MESSAGE};

#[test]
fn levels_eight_to_ten_are_high() {
    assert_eq!(Tier::select(8), Tier::High);
    assert_eq!(Tier::select(9), Tier::High);
    assert_eq!(Tier::select(10), Tier::High);
}

#[test]
fn levels_five_to_seven_are_moderate() {
    assert_eq!(Tier::select(5), Tier::Moderate);
    assert_eq!(Tier::select(6), Tier::Moderate);
    assert_eq!(Tier::select(7), Tier::Moderate);
}

#[test]
fn levels_one_to_four_are_low() {
    assert_eq!(Tier::select(1), Tier::Low);
    assert_eq!(Tier::select(2), Tier::Low);
    assert_eq!(Tier::select(3), Tier::Low);
    assert_eq!(Tier::select(4), Tier::Low);
}

#[test]
fn a_level_on_a_threshold_belongs_to_the_tier_above() {
    assert_eq!(Tier::select(5), Tier::Moderate);
    assert_eq!(Tier::select(8), Tier::High);
}

#[test]
fn levels_off_the_scale_follow_the_thresholds() {
    assert_eq!(Tier::select(0), Tier::Low);
    assert_eq!(Tier::select(-3), Tier::Low);
    assert_eq!(Tier::select(i32::MIN), Tier::Low);
    assert_eq!(Tier::select(11), Tier::High);
    assert_eq!(Tier::select(i32::MAX), Tier::High);
}

#[test]
fn each_tier_has_its_message() {
    assert_eq!(Tier::High.message(), "🔥 You're super hyped! Let's dive deep into Rust!");
    assert_eq!(Tier::Moderate.message(), "🙂 Nice! You're curious and ready to learn.");
    assert_eq!(Tier::Low.message(), "😅 Don’t worry, Rust will grow on you!");
    assert_eq!(Tier::High.message(), HIGH_MESSAGE);
    assert_eq!(Tier::Moderate.message(), MODERATE_MESSAGE);
    assert_eq!(Tier::Low.message(), LOW_MESSAGE);
}

#[test]
fn the_messages_differ() {
    assert_ne!(Tier::High.message(), Tier::Moderate.message());
    assert_ne!(Tier::High.message(), Tier::Low.message());
    assert_ne!(Tier::Moderate.message(), Tier::Low.message());
}
