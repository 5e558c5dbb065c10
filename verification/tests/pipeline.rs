//! Scenario tests for the squat-confirmation pipeline.

use typomania_crates::{
    snapshot_from_rows, Config, Counters, Dur, Error, Krate, RawKrate, SemanticGate,
    SimilarityEngine, TopCrates,
};

/// An engine that always reports the same similarity score.
struct FixedEngine(u64);

impl SimilarityEngine for FixedEngine {
    fn similarity(&mut self, _a: &str, _b: &str) -> Result<u64, String> {
        Ok(self.0)
    }
}

/// An engine that always fails, standing in for an unavailable service. Any
/// verdict that reaches the engine must propagate this error; any verdict
/// that does not must succeed.
struct FailingEngine;

impl SimilarityEngine for FailingEngine {
    fn similarity(&mut self, _a: &str, _b: &str) -> Result<u64, String> {
        Err("similarity service unavailable".to_string())
    }
}

fn serde_krate() -> Krate {
    Krate {
        authors: vec!["dtolnay".to_string()],
        description: Some("serialization framework".to_string()),
    }
}

fn serde1_krate() -> Krate {
    Krate {
        authors: vec!["someone-else".to_string()],
        description: Some("serialization framework".to_string()),
    }
}

fn config(gate: SemanticGate, allowed: Vec<(String, Vec<String>)>) -> Config {
    Config {
        semantic_gate: gate,
        new_crates_to_check: Dur { secs: 2_592_000, nanos: 0 },
        top_crates: None,
        allowed_crates: allowed,
        typos: Vec::new(),
    }
}

fn serde_corpus(gate: SemanticGate, allowed: Vec<(String, Vec<String>)>) -> TopCrates {
    TopCrates::new(
        config(gate, allowed),
        vec![("serde".to_string(), serde_krate())],
    )
}

#[test]
fn confirmed_without_allowlist_entry() {
    // Corpus holds serde; the new crate serde1 matches it structurally, no
    // allow-list entry, semantic gate disabled: confirmed.
    let mut corpus = serde_corpus(SemanticGate::NoGate, Vec::new());
    let mut engine = FailingEngine;
    let verdict = corpus.possible_squat(&mut engine, "serde", "serde1", &serde1_krate());
    assert_eq!(verdict, Ok(true));
}

#[test]
fn allowlist_entry_suppresses_verdict() {
    // Same scenario, but the allow-list records serde1 resembling serde as
    // an acceptable coincidence: not confirmed.
    let allowed = vec![("serde".to_string(), vec!["serde1".to_string()])];
    let mut corpus = serde_corpus(SemanticGate::NoGate, allowed);
    let mut engine = FailingEngine;
    let verdict = corpus.possible_squat(&mut engine, "serde", "serde1", &serde1_krate());
    assert_eq!(verdict, Ok(false));
}

#[test]
fn allowlist_never_promotes_a_negative_verdict() {
    // The pair is ruled out structurally (shared author); an allow-list
    // entry cannot turn that into a confirmation.
    let allowed = vec![("serde".to_string(), vec!["serde1".to_string()])];
    let mut corpus = serde_corpus(SemanticGate::NoGate, allowed);
    let mut engine = FixedEngine(1_000_000);
    let same_author = Krate {
        authors: vec!["dtolnay".to_string()],
        description: Some("serialization framework".to_string()),
    };
    let verdict = corpus.possible_squat(&mut engine, "serde", "serde1", &same_author);
    assert_eq!(verdict, Ok(false));
}

#[test]
fn low_similarity_clears_verdict() {
    // Gate enabled at threshold 0.97; candidate description "totally
    // unrelated tool" vs matched description "serialization framework",
    // score 0.2: cleared even though the structural check confirms.
    let gate = SemanticGate::ThresholdGate { threshold: 970_000 };
    let unrelated = Krate {
        authors: vec!["dtolnay".to_string()],
        description: Some("totally unrelated tool".to_string()),
    };
    let mut corpus = TopCrates::new(
        config(gate, Vec::new()),
        vec![("serde".to_string(), unrelated)],
    );
    let mut engine = FixedEngine(200_000);
    let verdict = corpus.possible_squat(&mut engine, "serde", "serde1", &serde1_krate());
    assert_eq!(verdict, Ok(false));
}

#[test]
fn high_similarity_keeps_structural_verdict() {
    // Score at or above the threshold leaves the structural result standing.
    let gate = SemanticGate::ThresholdGate { threshold: 970_000 };
    let mut corpus = serde_corpus(gate, Vec::new());
    let mut engine = FixedEngine(990_000);
    let verdict = corpus.possible_squat(&mut engine, "serde", "serde1", &serde1_krate());
    assert_eq!(verdict, Ok(true));
}

#[test]
fn structural_rejection_is_final() {
    // A package cannot squat itself: false regardless of gate and engine.
    let gate = SemanticGate::ThresholdGate { threshold: 970_000 };
    let mut corpus = serde_corpus(gate, Vec::new());
    let mut engine = FailingEngine;
    let verdict = corpus.possible_squat(&mut engine, "serde", "serde", &serde_krate());
    assert_eq!(verdict, Ok(false));
}

#[test]
fn shared_author_rejects_structurally() {
    // An author cannot squat their own package, and a structurally rejected
    // pair never reaches the semantic step or the failing engine.
    let gate = SemanticGate::ThresholdGate { threshold: 970_000 };
    let mut corpus = serde_corpus(gate, Vec::new());
    let mut engine = FailingEngine;
    let own = Krate {
        authors: vec!["dtolnay".to_string()],
        description: Some("another take".to_string()),
    };
    let verdict = corpus.possible_squat(&mut engine, "serde", "serde-fork", &own);
    assert_eq!(verdict, Ok(false));
}

#[test]
fn missing_description_skips_gate() {
    // Either description absent: the semantic step leaves the verdict
    // unchanged, and the engine is never consulted (it would error here).
    let gate = SemanticGate::ThresholdGate { threshold: 970_000 };
    let undescribed = Krate { authors: vec!["dtolnay".to_string()], description: None };
    let mut corpus = TopCrates::new(
        config(gate, Vec::new()),
        vec![("serde".to_string(), undescribed)],
    );
    let mut engine = FailingEngine;
    let verdict = corpus.possible_squat(&mut engine, "serde", "serde1", &serde1_krate());
    assert_eq!(verdict, Ok(true));

    // Matched package without a description: same skip.
    let mut corpus = serde_corpus(gate, Vec::new());
    let bare = Krate { authors: vec!["someone-else".to_string()], description: None };
    let verdict = corpus.possible_squat(&mut engine, "serde", "serde1", &bare);
    assert_eq!(verdict, Ok(true));
}

#[test]
fn engine_failure_propagates() {
    // Gate runs and the engine fails: the error surfaces, never silently
    // downgraded to "not a squat".
    let gate = SemanticGate::ThresholdGate { threshold: 970_000 };
    let mut corpus = serde_corpus(gate, Vec::new());
    let mut engine = FailingEngine;
    let verdict = corpus.possible_squat(&mut engine, "serde", "serde1", &serde1_krate());
    assert_eq!(
        verdict,
        Err(Error::Engine("similarity service unavailable".to_string()))
    );
}

#[test]
fn lookups_are_counted_exactly() {
    // After k lookups of existing names and m of absent names, in any
    // interleaving, the counters hold exactly found = k, not_found = m.
    let mut corpus = serde_corpus(SemanticGate::NoGate, Vec::new());
    assert!(corpus.contains_name("serde"));
    assert!(!corpus.contains_name("serde1"));
    assert!(corpus.get("nothing-here").is_none());
    assert!(corpus.contains_name("serde"));
    assert!(corpus.get("serde").is_some());
    assert!(!corpus.contains_name("also-missing"));
    let totals = corpus.counters.finalize();
    assert_eq!(totals, (3, 3));
}

#[test]
fn counters_start_at_zero_and_step_by_one() {
    let mut counters = Counters::new();
    counters.found();
    counters.found();
    counters.not_found();
    assert_eq!(counters.found, 2);
    assert_eq!(counters.not_found, 1);
    assert_eq!(counters.finalize(), (2, 1));
}

#[test]
fn get_returns_the_record() {
    let mut corpus = serde_corpus(SemanticGate::NoGate, Vec::new());
    let record = corpus.get("serde").expect("serde is in the corpus");
    assert_eq!(
        record.description,
        Some("serialization framework".to_string())
    );
    assert!(corpus.get("serde1").is_none());
}

#[test]
fn later_rows_replace_earlier_ones() {
    let row = |name: &str, login: Option<&str>, desc: &str| RawKrate {
        name: name.to_string(),
        login: login.map(|l| l.to_string()),
        homepage: None,
        repository: None,
        documentation: None,
        description: Some(desc.to_string()),
        downloads: 0,
    };
    let rows = vec![
        row("serde", Some("dtolnay"), "first"),
        row("rand", None, "randomness"),
        row("serde", Some("dtolnay"), "second"),
    ];
    let snapshot = snapshot_from_rows(rows);
    assert_eq!(snapshot.len(), 2);
    let mut corpus = TopCrates::new(config(SemanticGate::NoGate, Vec::new()), snapshot);
    let serde = corpus.get("serde").expect("serde is in the corpus");
    assert_eq!(serde.description, Some("second".to_string()));
    let rand = corpus.get("rand").expect("rand is in the corpus");
    assert_eq!(rand.description, Some("randomness".to_string()));
    assert!(rand.authors.is_empty());
}

#[test]
fn raw_rows_condense_to_records() {
    let row = RawKrate {
        name: "serde".to_string(),
        login: Some("dtolnay".to_string()),
        homepage: Some("https://serde.rs".to_string()),
        repository: None,
        documentation: None,
        description: Some("serialization framework".to_string()),
        downloads: 123,
    };
    let k = Krate::from(row);
    assert!(k.contains("dtolnay"));
    assert!(!k.contains("someone-else"));
    assert_eq!(k.description, Some("serialization framework".to_string()));

    let anonymous = RawKrate {
        name: "rand".to_string(),
        login: None,
        homepage: None,
        repository: None,
        documentation: None,
        description: None,
        downloads: 0,
    };
    let k = Krate::from(anonymous);
    assert!(!k.contains("dtolnay"));
    assert_eq!(k.description, None);
}

#[test]
fn shared_authors_means_a_common_name() {
    let a = serde_krate();
    let b = Krate {
        authors: vec!["other".to_string(), "dtolnay".to_string()],
        description: None,
    };
    let c = serde1_krate();
    assert!(a.shared_authors(&b));
    assert!(b.shared_authors(a.authors()));
    assert!(!a.shared_authors(&c));
    assert!(!c.shared_authors(&a));
}
