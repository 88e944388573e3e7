use crev_data::level::TrustLevel;

const ALL: [TrustLevel; 5] = [
    TrustLevel::Distrust,
    TrustLevel::Neutral,
    TrustLevel::Low,
    TrustLevel::Medium,
    TrustLevel::High,
];

#[test]
fn level_names_round_trip() {
    for level in ALL {
        let name = level.to_string();
        assert_eq!(TrustLevel::from_str(&name).unwrap(), level);
    }
}

#[test]
fn level_names_are_lower_case_words() {
    assert_eq!(TrustLevel::High.to_string(), "high");
    assert_eq!(TrustLevel::Medium.to_string(), "medium");
    assert_eq!(TrustLevel::Low.to_string(), "low");
    assert_eq!(TrustLevel::Neutral.to_string(), "none");
    assert_eq!(TrustLevel::Distrust.to_string(), "distrust");
    assert_eq!(TrustLevel::Medium.as_str(), "medium");
}

#[test]
fn unknown_level_is_handed_back() {
    let err = TrustLevel::from_str("High").unwrap_err();
    assert_eq!(err.name, "High");
    assert!(TrustLevel::from_str("").is_err());
    assert!(TrustLevel::from_str("neutral").is_err());
}

#[test]
fn default_level_is_medium() {
    assert_eq!(TrustLevel::default(), TrustLevel::Medium);
}

#[test]
fn levels_are_ordered_by_strength() {
    for (i, a) in ALL.iter().enumerate() {
        assert_eq!(a.strength() as usize, i);
        for (j, b) in ALL.iter().enumerate() {
            assert_eq!(a < b, i < j);
            assert_eq!(a <= b, i <= j);
            assert_eq!(a > b, i > j);
            assert_eq!(a.at_least(*b), i >= j);
            assert_eq!(a.weaker(*b), ALL[i.min(j)]);
            assert_eq!(a.stronger(*b), ALL[i.max(j)]);
        }
    }
    assert!(TrustLevel::High > TrustLevel::Medium);
    assert!(TrustLevel::Medium > TrustLevel::Low);
    assert!(TrustLevel::Low > TrustLevel::Neutral);
    assert!(TrustLevel::Neutral > TrustLevel::Distrust);
}

#[test]
fn only_low_and_better_vouch() {
    assert!(TrustLevel::High.can_vouch());
    assert!(TrustLevel::Medium.can_vouch());
    assert!(TrustLevel::Low.can_vouch());
    assert!(!TrustLevel::Neutral.can_vouch());
    assert!(!TrustLevel::Distrust.can_vouch());
}
