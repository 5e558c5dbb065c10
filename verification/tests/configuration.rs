//! Tests for the configuration surface: gate selection, defaults, and the
//! allow-list lookup.

use typomania_crates::{
    confirm_with_score, Config, Dur, SemanticGate, DEFAULT_SIMILARITY_THRESHOLD,
    DEFAULT_TOP_CRATES,
};

fn base_config(gate: SemanticGate) -> Config {
    Config {
        semantic_gate: gate,
        new_crates_to_check: Dur { secs: 2_592_000, nanos: 0 },
        top_crates: None,
        allowed_crates: vec![
            ("serde".to_string(), vec!["serde1".to_string(), "serde2".to_string()]),
            ("rand".to_string(), vec![]),
        ],
        typos: vec![('m', vec!["n".to_string()])],
    }
}

#[test]
fn gate_selection_follows_configuration() {
    assert_eq!(SemanticGate::from_config(false, None), SemanticGate::NoGate);
    assert_eq!(
        SemanticGate::from_config(false, Some(500_000)),
        SemanticGate::NoGate
    );
    assert_eq!(
        SemanticGate::from_config(true, None),
        SemanticGate::ThresholdGate { threshold: DEFAULT_SIMILARITY_THRESHOLD }
    );
    assert_eq!(
        SemanticGate::from_config(true, Some(500_000)),
        SemanticGate::ThresholdGate { threshold: 500_000 }
    );
}

#[test]
fn threshold_defaults_to_ninety_seven_hundredths() {
    assert_eq!(DEFAULT_SIMILARITY_THRESHOLD, 970_000);
    let c = base_config(SemanticGate::from_config(true, None));
    assert_eq!(c.similarity_threshold(), 970_000);
    let c = base_config(SemanticGate::ThresholdGate { threshold: 123_456 });
    assert_eq!(c.similarity_threshold(), 123_456);
}

#[test]
fn top_crates_defaults_to_three_thousand() {
    assert_eq!(DEFAULT_TOP_CRATES, 3000);
    let mut c = base_config(SemanticGate::NoGate);
    assert_eq!(c.top_crates(), 3000);
    c.top_crates = Some(50);
    assert_eq!(c.top_crates(), 50);
}

#[test]
fn allowed_consults_the_entry_for_the_name() {
    let c = base_config(SemanticGate::NoGate);
    assert!(c.allowed("serde", "serde1"));
    assert!(c.allowed("serde", "serde2"));
    assert!(!c.allowed("serde", "serde3"));
    assert!(!c.allowed("rand", "serde1"));
    assert!(!c.allowed("unlisted", "serde1"));
    assert!(!c.allowed("serde1", "serde"));
}

#[test]
fn lookback_and_typos_are_handed_back() {
    let c = base_config(SemanticGate::NoGate);
    assert_eq!(c.new_crates_to_check(), Dur { secs: 2_592_000, nanos: 0 });
    assert_eq!(c.typos().len(), 1);
    assert_eq!(c.typos()[0].0, 'm');
    assert_eq!(c.typos()[0].1, vec!["n".to_string()]);
}

#[test]
fn verdict_combination_is_exact() {
    // No score computed: the structural result stands, minus the allow-list.
    assert!(confirm_with_score(true, None, 970_000, false));
    assert!(!confirm_with_score(true, None, 970_000, true));
    assert!(!confirm_with_score(false, None, 970_000, false));
    // A score below the threshold clears the verdict; at or above it, the
    // structural result stands.
    assert!(!confirm_with_score(true, Some(969_999), 970_000, false));
    assert!(confirm_with_score(true, Some(970_000), 970_000, false));
    assert!(confirm_with_score(true, Some(1_000_000), 970_000, false));
    assert!(!confirm_with_score(true, Some(1_000_000), 970_000, true));
    assert!(!confirm_with_score(false, Some(1_000_000), 970_000, false));
}
