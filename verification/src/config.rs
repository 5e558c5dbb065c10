//! Run configuration: the semantic gate selection, the similarity threshold,
//! the lookback duration, the popular-package count, the allow-list, and the
//! typo table.
//!
//! Similarity scores and thresholds are fixed-point fractions of
//! [`SIMILARITY_SCALE`]: a score of 0.97 is written 970_000.

use vstd::prelude::*;

use crate::duration::Dur;
use crate::text::str_eq;

verus! {

/// Scores and thresholds are fractions of this scale.
pub const SIMILARITY_SCALE: u64 = 1_000_000;

/// The threshold used when the configuration names none: 0.97.
pub const DEFAULT_SIMILARITY_THRESHOLD: u64 = 970_000;

/// The popular-package count used when the configuration names none.
pub const DEFAULT_TOP_CRATES: u32 = 3000;

/// The semantic-similarity gate, selected at construction time: either absent
/// (every structural verdict passes through) or present with an acceptance
/// threshold (a score strictly below it clears the verdict).
#[derive(Clone, Copy, PartialEq, Eq, Structural, Debug)]
pub enum SemanticGate {
    NoGate,
    ThresholdGate { threshold: u64 },
}

/// A configuration the process cannot start with: a lookback string the
/// duration grammar rejects, or a parsed lookback beyond the representable
/// range.
#[derive(PartialEq, Eq, Debug)]
pub enum ConfigError {
    InvalidDuration(String),
    DurationOutOfRange,
}

/// The semantic filter a configuration asks for.
pub open spec fn spec_gate_config(enabled: bool, threshold: Option<u64>) -> SemanticGate {
    if enabled {
        SemanticGate::ThresholdGate {
            threshold: match threshold {
                Some(t) => t,
                None => DEFAULT_SIMILARITY_THRESHOLD,
            },
        }
    } else {
        SemanticGate::NoGate
    }
}

/// The acceptance threshold of a gate; the default where no gate carries one.
pub open spec fn spec_similarity_threshold(g: SemanticGate) -> u64 {
    match g {
        SemanticGate::NoGate => DEFAULT_SIMILARITY_THRESHOLD,
        SemanticGate::ThresholdGate { threshold } => threshold,
    }
}

impl SemanticGate {
    /// Builds the semantic filter the configuration asks for: enabled with
    /// the configured (or default) threshold, or no filtering at all.
    pub fn from_config(enabled: bool, threshold: Option<u64>) -> (g: SemanticGate)
        ensures
            g == spec_gate_config(enabled, threshold),
    {
        if enabled {
            match threshold {
                Some(t) => SemanticGate::ThresholdGate { threshold: t },
                None => SemanticGate::ThresholdGate { threshold: DEFAULT_SIMILARITY_THRESHOLD },
            }
        } else {
            SemanticGate::NoGate
        }
    }
}

/// Is suppressing the verdict for `name` resembling `target` a known
/// acceptable coincidence? True when some allow-list entry for `name` lists
/// `target`.
pub open spec fn spec_allowed(
    entries: Seq<(String, Vec<String>)>,
    name: Seq<char>,
    target: Seq<char>,
) -> bool {
    exists|i: int, j: int|
        {
            &&& 0 <= i < entries.len()
            &&& #[trigger] entries[i].0@ == name
            &&& 0 <= j < entries[i].1@.len()
            &&& #[trigger] entries[i].1@[j]@ == target
        }
}

/// The run configuration the pipeline consumes.
pub struct Config {
    pub semantic_gate: SemanticGate,
    pub new_crates_to_check: Dur,
    pub top_crates: Option<u32>,
    pub allowed_crates: Vec<(String, Vec<String>)>,
    pub typos: Vec<(char, Vec<String>)>,
}

impl Config {
    /// Is `name` resembling `target` a known acceptable coincidence?
    pub fn allowed(&self, name: &str, target: &str) -> (r: bool)
        ensures
            r == spec_allowed(self.allowed_crates@, name@, target@),
    {
        let mut i: usize = 0;
        while i < self.allowed_crates.len()
            invariant
                i <= self.allowed_crates.len(),
                forall|ii: int, jj: int|
                    {
                        &&& 0 <= ii < i
                        &&& 0 <= jj < self.allowed_crates@[ii].1@.len()
                    } ==> !(#[trigger] self.allowed_crates@[ii].0@ == name@
                        && #[trigger] self.allowed_crates@[ii].1@[jj]@ == target@),
            decreases self.allowed_crates.len() - i,
        {
            if str_eq(self.allowed_crates[i].0.as_str(), name) {
                let targets = &self.allowed_crates[i].1;
                let mut j: usize = 0;
                while j < targets.len()
                    invariant
                        j <= targets.len(),
                        targets == &self.allowed_crates@[i as int].1,
                        i < self.allowed_crates.len(),
                        self.allowed_crates@[i as int].0@ == name@,
                        forall|jj: int| 0 <= jj < j ==> #[trigger] targets@[jj]@ != target@,
                    decreases targets.len() - j,
                {
                    if str_eq(targets[j].as_str(), target) {
                        proof {
                            assert(self.allowed_crates@[i as int].0@ == name@
                                && self.allowed_crates@[i as int].1@[j as int]@ == target@);
                        }
                        return true;
                    }
                    j = j + 1;
                }
            }
            i = i + 1;
        }
        false
    }

    /// The configured lookback for selecting recently updated packages.
    pub fn new_crates_to_check(&self) -> (d: Dur)
        ensures
            d == self.new_crates_to_check,
    {
        self.new_crates_to_check
    }

    /// The semantic gate's acceptance threshold, configured or default.
    pub fn similarity_threshold(&self) -> (t: u64)
        ensures
            t == spec_similarity_threshold(self.semantic_gate),
    {
        match self.semantic_gate {
            SemanticGate::NoGate => DEFAULT_SIMILARITY_THRESHOLD,
            SemanticGate::ThresholdGate { threshold } => threshold,
        }
    }

    /// How many of the most popular packages make up the corpus.
    pub fn top_crates(&self) -> (n: u32)
        ensures
            n == (match self.top_crates {
                Some(c) => c,
                None => DEFAULT_TOP_CRATES,
            }),
    {
        match self.top_crates {
            Some(c) => c,
            None => DEFAULT_TOP_CRATES,
        }
    }

    /// The configured per-character typo table, for the structural detectors.
    pub fn typos(&self) -> (t: &Vec<(char, Vec<String>)>)
        ensures
            t == &self.typos,
    {
        &self.typos
    }
}

/// Names the value `parse_duration::parse` gives a duration string: whole
/// seconds plus sub-second nanoseconds, or nothing where the grammar rejects
/// the string. The parse is a function of the characters alone.
pub uninterp spec fn parsed_duration(s: Seq<char>) -> Option<(u64, u32)>;

/// Relies on `parse_duration::parse`: parses a human-readable duration
/// string (e.g. "30d") into a normalized duration value, whose nanosecond
/// part is below one second.
#[verifier::external_body]
fn parse_duration_str(s: &str) -> (r: Result<(u64, u32), String>)
    ensures
        r is Ok <==> parsed_duration(s@) is Some,
        r matches Ok(v) ==> parsed_duration(s@) == Some(v) && v.1 < 1_000_000_000,
{
    match parse_duration::parse(s) {
        Ok(d) => Ok((d.as_secs(), d.subsec_nanos())),
        Err(e) => Err(format!("{e}")),
    }
}

/// Parses the configured lookback string into an elapsed duration, exactly as
/// the duration grammar reads it. Errors exactly on a string the grammar
/// rejects (`InvalidDuration`) or on a parsed value beyond the representable
/// range (`DurationOutOfRange`) — detected here, at configuration load, never
/// during per-candidate processing.
pub fn parse_lookback(s: &str) -> (r: Result<Dur, ConfigError>)
    ensures
        r is Ok <==> (parsed_duration(s@) matches Some(v) && (v.0 < 9_223_372_036_854_775 || (
        v.0 == 9_223_372_036_854_775 && v.1 <= 807_000_000))),
        r matches Ok(d) ==> {
            &&& d.wf()
            &&& parsed_duration(s@) matches Some(v) && d.secs == v.0 && d.nanos == v.1
        },
        r matches Err(e) ==> (e is DurationOutOfRange <==> parsed_duration(s@) is Some),
{
    match parse_duration_str(s) {
        Ok((secs, nanos)) => match Dur::from_std(secs, nanos) {
            Some(d) => Ok(d),
            None => Err(ConfigError::DurationOutOfRange),
        },
        Err(msg) => Err(ConfigError::InvalidDuration(msg)),
    }
}

} // verus!
