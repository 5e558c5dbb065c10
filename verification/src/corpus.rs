//! The corpus adapter and the squat-confirmation pipeline.
//!
//! [`TopCrates`] holds the read-only registry snapshot of popular packages,
//! counts every lookup, and decides whether a flagged name pair is a real
//! squat: the structural check first, the description-similarity step next,
//! and the allow-list last.

use vstd::prelude::*;

use crate::config::{spec_allowed, spec_similarity_threshold, Config, SemanticGate};
use crate::counters::Counters;
use crate::record::{raw_view, spec_shared_authors, Krate, KrateView, RawKrate};
use crate::text::str_eq;

verus! {

/// A verdict computation failed: the semantic-similarity capability reported
/// an error (a service failure, or a failure to acquire exclusive access to
/// the engine). Never silently downgraded to "not a squat".
#[derive(PartialEq, Eq, Debug)]
pub enum Error {
    Engine(String),
}

/// The semantic-similarity capability: an opaque, fallible external service
/// that scores the similarity of two description texts as a fraction of
/// [`crate::SIMILARITY_SCALE`]. Exclusive access (`&mut self`) keeps at most
/// one computation in flight, as the underlying engine requires.
pub trait SimilarityEngine {
    fn similarity(&mut self, a: &str, b: &str) -> Result<u64, String>;
}

/// Do the keyed entries carry pairwise distinct names?
pub open spec fn unique_keys(s: Seq<(String, Krate)>) -> bool {
    forall|i: int, j: int| 0 <= i < j < s.len() ==> s[i].0@ != s[j].0@
}

/// Does some entry carry this name?
pub open spec fn snapshot_contains(s: Seq<(String, Krate)>, name: Seq<char>) -> bool {
    exists|i: int| 0 <= i < s.len() && #[trigger] s[i].0@ == name
}

/// The index of the entry carrying this name.
pub open spec fn snapshot_key_at(s: Seq<(String, Krate)>, name: Seq<char>) -> int {
    choose|i: int| 0 <= i < s.len() && #[trigger] s[i].0@ == name
}

/// The mapping from package name to record that the keyed entries denote.
pub open spec fn snapshot_map(s: Seq<(String, Krate)>) -> Map<Seq<char>, KrateView> {
    Map::new(
        |name: Seq<char>| snapshot_contains(s, name),
        |name: Seq<char>| s[snapshot_key_at(s, name)].1@,
    )
}

/// With unique keys, the entry carrying a name is the one at its index.
proof fn lemma_key_at(s: Seq<(String, Krate)>, name: Seq<char>, i: int)
    requires
        unique_keys(s),
        0 <= i < s.len(),
        s[i].0@ == name,
    ensures
        snapshot_key_at(s, name) == i,
{
    let j = snapshot_key_at(s, name);
    assert(0 <= j < s.len() && s[j].0@ == name);
}

/// The mapping a sequence of raw registry rows builds: a later row replaces
/// an earlier row with the same name, as repeated insertion does.
pub open spec fn rows_map(rows: Seq<RawKrate>) -> Map<Seq<char>, KrateView>
    decreases rows.len(),
{
    if rows.len() == 0 {
        Map::empty()
    } else {
        rows_map(rows.drop_last()).insert(rows.last().name@, raw_view(rows.last()))
    }
}

/// Inserts a record into a uniquely keyed vector: replaces the entry with
/// the same name, or appends a new one — one insertion step of building a
/// mapping.
fn insert_record(out: &mut Vec<(String, Krate)>, name: String, k: Krate)
    requires
        unique_keys(old(out)@),
    ensures
        unique_keys(final(out)@),
        snapshot_map(final(out)@) == snapshot_map(old(out)@).insert(name@, k@),
{
    let ghost s0 = out@;
    let mut i: usize = 0;
    while i < out.len()
        invariant
            i <= out.len(),
            out@ == s0,
            s0 == old(out)@,
            unique_keys(s0),
            forall|ii: int| 0 <= ii < i ==> s0[ii].0@ != name@,
        decreases out.len() - i,
    {
        if str_eq(out[i].0.as_str(), name.as_str()) {
            let ghost j = i as int;
            out.set(i, (name, k));
            proof {
                assert(s0[j].0@ == name@);
                assert forall|ii: int| 0 <= ii < out@.len() implies #[trigger] out@[ii].0@
                    == s0[ii].0@ by {}
                assert(unique_keys(out@));
                assert forall|x: Seq<char>| #[trigger]
                    snapshot_map(out@).dom().contains(x) implies snapshot_map(s0).insert(
                    name@,
                    k@,
                ).dom().contains(x) && snapshot_map(out@)[x] == snapshot_map(s0).insert(
                    name@,
                    k@,
                )[x] by {
                    let w = choose|w: int| 0 <= w < out@.len() && out@[w].0@ == x;
                    assert(s0[w].0@ == x);
                    lemma_key_at(out@, x, w);
                    if x == name@ {
                        lemma_key_at(out@, x, j);
                    } else {
                        lemma_key_at(s0, x, w);
                    }
                }
                assert forall|x: Seq<char>| #[trigger]
                    snapshot_map(s0).insert(name@, k@).dom().contains(x) implies snapshot_map(
                    out@,
                ).dom().contains(x) by {
                    if x == name@ {
                        assert(out@[j].0@ == x);
                    } else {
                        let w = choose|w: int| 0 <= w < s0.len() && s0[w].0@ == x;
                        assert(out@[w].0@ == x);
                    }
                }
                assert(snapshot_map(out@) =~= snapshot_map(s0).insert(name@, k@));
            }
            return ;
        }
        i = i + 1;
    }
    let ghost j = out@.len() as int;
    out.push((name, k));
    proof {
        assert(out@[j].0@ == name@);
        assert forall|ii: int| 0 <= ii < j implies #[trigger] out@[ii] == s0[ii] by {}
        assert(unique_keys(out@));
        assert forall|x: Seq<char>| #[trigger]
            snapshot_map(out@).dom().contains(x) implies snapshot_map(s0).insert(
            name@,
            k@,
        ).dom().contains(x) && snapshot_map(out@)[x] == snapshot_map(s0).insert(name@, k@)[x] by {
            let w = choose|w: int| 0 <= w < out@.len() && out@[w].0@ == x;
            lemma_key_at(out@, x, w);
            if x == name@ {
                lemma_key_at(out@, x, j);
            } else {
                assert(w < j);
                assert(s0[w].0@ == x);
                lemma_key_at(s0, x, w);
            }
        }
        assert forall|x: Seq<char>| #[trigger]
            snapshot_map(s0).insert(name@, k@).dom().contains(x) implies snapshot_map(
            out@,
        ).dom().contains(x) by {
            if x == name@ {
                assert(out@[j].0@ == x);
            } else {
                let w = choose|w: int| 0 <= w < s0.len() && s0[w].0@ == x;
                assert(out@[w].0@ == x);
            }
        }
        assert(snapshot_map(out@) =~= snapshot_map(s0).insert(name@, k@));
    }
}

/// Condenses raw registry rows into a registry snapshot with unique names —
/// the computing half of fetching a corpus from the store. A later row
/// replaces an earlier row with the same name.
pub fn snapshot_from_rows(rows: Vec<RawKrate>) -> (out: Vec<(String, Krate)>)
    ensures
        unique_keys(out@),
        snapshot_map(out@) == rows_map(rows@),
{
    let ghost all = rows@;
    let mut rows = rows;
    let mut out: Vec<(String, Krate)> = Vec::new();
    proof {
        assert(all.take(0) =~= Seq::<RawKrate>::empty());
        assert forall|x: Seq<char>| !(#[trigger] snapshot_contains(out@, x)) by {}
        assert(snapshot_map(out@) =~= rows_map(all.take(0)));
    }
    while rows.len() > 0
        invariant
            unique_keys(out@),
            rows@.len() <= all.len(),
            all.skip(all.len() - rows@.len()) == rows@,
            snapshot_map(out@) == rows_map(all.take(all.len() - rows@.len())),
        decreases rows@.len(),
    {
        let ghost k = all.len() - rows@.len();
        proof {
            assert(all.skip(k as int)[0] == all[k as int]);
        }
        let row = rows.remove(0);
        let name = row.name.clone();
        proof {
            assert(row == all[k as int]);
            assert(all.skip(k as int + 1) =~= rows@);
        }
        let krate = Krate::from(row);
        insert_record(&mut out, name, krate);
        proof {
            let processed = all.take(k as int + 1);
            assert(processed.drop_last() =~= all.take(k as int));
            assert(processed.last() == all[k as int]);
            assert(snapshot_map(out@) =~= rows_map(processed));
        }
    }
    proof {
        assert(all.take(all.len() as int) =~= all);
    }
    out
}

/// The structural-match confirmation: is `name_to_check` — a package in the
/// corpus — plausibly squatted by `package`? A package cannot squat itself;
/// an author cannot squat their own package; a name absent from the corpus
/// is not confirmed.
pub open spec fn spec_possible_squat(
    corpus: Map<Seq<char>, KrateView>,
    name_to_check: Seq<char>,
    package_name: Seq<char>,
    package: KrateView,
) -> bool {
    &&& name_to_check != package_name
    &&& corpus.contains_key(name_to_check)
    &&& !spec_shared_authors(corpus[name_to_check], package)
}

/// The final verdict as a function of the three refinement outcomes: the
/// structural result stands, unless a semantic score (where one was
/// computed) falls strictly below the threshold, or the allow-list lists the
/// pair. The allow-list can only suppress a positive verdict, never promote
/// a negative one.
pub open spec fn spec_confirm(
    structural: bool,
    score: Option<u64>,
    threshold: u64,
    allowed: bool,
) -> bool {
    &&& structural
    &&& (score matches Some(s) ==> s >= threshold)
    &&& !allowed
}

/// Combines the three refinement outcomes into the final verdict, for every
/// possible value of the semantic score.
pub fn confirm_with_score(
    structural: bool,
    score: Option<u64>,
    threshold: u64,
    allowed: bool,
) -> (v: bool)
    ensures
        v == spec_confirm(structural, score, threshold, allowed),
{
    let mut v = structural;
    if v {
        match score {
            Some(s) => if s < threshold {
                v = false;
            },
            None => {},
        }
    }
    if v && allowed {
        v = false;
    }
    v
}

/// An allow-list entry only ever suppresses: with one listed the verdict is
/// never positive, and a positive verdict implies the verdict without the
/// entry — never does an entry convert a negative structural or semantic
/// result into a positive verdict.
pub proof fn lemma_allowlist_suppresses_only(
    structural: bool,
    score: Option<u64>,
    threshold: u64,
    allowed: bool,
)
    ensures
        allowed ==> !spec_confirm(structural, score, threshold, allowed),
        spec_confirm(structural, score, threshold, allowed) ==> spec_confirm(
            structural,
            score,
            threshold,
            false,
        ),
        spec_confirm(structural, score, threshold, allowed) ==> structural,
{
}

/// The corpus adapter: the read-only snapshot of the most popular packages,
/// the run configuration, and the lookup telemetry.
pub struct TopCrates {
    pub crates: Vec<(String, Krate)>,
    pub counters: Counters,
    pub config: Config,
}

impl TopCrates {
    /// Well-formed: the snapshot's names are unique, so it denotes a mapping.
    pub open spec fn wf(&self) -> bool {
        unique_keys(self.crates@)
    }

    /// The mapping from package name to record this corpus holds.
    pub open spec fn snapshot(&self) -> Map<Seq<char>, KrateView> {
        snapshot_map(self.crates@)
    }

    /// Builds the adapter over a snapshot, with fresh counters.
    pub fn new(config: Config, crates: Vec<(String, Krate)>) -> (t: TopCrates)
        requires
            unique_keys(crates@),
        ensures
            t.wf(),
            t.crates == crates,
            t.config == config,
            t.counters.found == 0 && t.counters.not_found == 0,
    {
        TopCrates { crates, counters: Counters::new(), config }
    }

    /// The index of the entry carrying `name`, without telemetry.
    fn find(&self, name: &str) -> (r: Option<usize>)
        ensures
            match r {
                Some(i) => i < self.crates@.len() && self.crates@[i as int].0@ == name@,
                None => !snapshot_contains(self.crates@, name@),
            },
    {
        let mut i: usize = 0;
        while i < self.crates.len()
            invariant
                i <= self.crates.len(),
                forall|j: int| 0 <= j < i ==> #[trigger] self.crates@[j].0@ != name@,
            decreases self.crates.len() - i,
        {
            if str_eq(self.crates[i].0.as_str(), name) {
                return Some(i);
            }
            i = i + 1;
        }
        None
    }

    /// Does the corpus contain `name`? Counts the lookup: `found` on a hit,
    /// `not_found` on a miss. Absence is a valid result, never an error.
    pub fn contains_name(&mut self, name: &str) -> (r: bool)
        requires
            old(self).counters.found < u64::MAX,
            old(self).counters.not_found < u64::MAX,
        ensures
            r == old(self).snapshot().contains_key(name@),
            final(self).crates == old(self).crates,
            final(self).config == old(self).config,
            r ==> final(self).counters.found == old(self).counters.found + 1
                && final(self).counters.not_found == old(self).counters.not_found,
            !r ==> final(self).counters.not_found == old(self).counters.not_found + 1
                && final(self).counters.found == old(self).counters.found,
    {
        match self.find(name) {
            Some(_) => {
                self.counters.found();
                true
            },
            None => {
                self.counters.not_found();
                false
            },
        }
    }

    /// Fetches `name`'s record, if the corpus has it. Counts the lookup:
    /// `found` on a hit, `not_found` on a miss. Never panics on a missing
    /// name: absence is `None`.
    pub fn get(&mut self, name: &str) -> (r: Option<&Krate>)
        requires
            old(self).wf(),
            old(self).counters.found < u64::MAX,
            old(self).counters.not_found < u64::MAX,
        ensures
            final(self).crates == old(self).crates,
            final(self).config == old(self).config,
            match r {
                Some(k) => {
                    &&& old(self).snapshot().contains_key(name@)
                    &&& k@ == old(self).snapshot()[name@]
                    &&& final(self).counters.found == old(self).counters.found + 1
                    &&& final(self).counters.not_found == old(self).counters.not_found
                },
                None => {
                    &&& !old(self).snapshot().contains_key(name@)
                    &&& final(self).counters.not_found == old(self).counters.not_found + 1
                    &&& final(self).counters.found == old(self).counters.found
                },
            },
    {
        match self.find(name) {
            Some(i) => {
                proof {
                    lemma_key_at(self.crates@, name@, i as int);
                }
                self.counters.found();
                Some(&self.crates[i].1)
            },
            None => {
                self.counters.not_found();
                None
            },
        }
    }

    /// The default structural-match confirmation, as a corpus consults it:
    /// the corpus record for `name_to_check` is fetched (and the lookup
    /// counted) unless the two names already coincide, and the verdict is
    /// [`spec_possible_squat`]. It cannot fail: every outcome is a verdict.
    pub fn default_possible_squat(
        &mut self,
        name_to_check: &str,
        package_name: &str,
        package: &Krate,
    ) -> (r: bool)
        requires
            old(self).wf(),
            old(self).counters.found < u64::MAX,
            old(self).counters.not_found < u64::MAX,
        ensures
            r == spec_possible_squat(
                old(self).snapshot(),
                name_to_check@,
                package_name@,
                package@,
            ),
            final(self).crates == old(self).crates,
            final(self).config == old(self).config,
            name_to_check@ == package_name@ ==> final(self).counters == old(self).counters,
            name_to_check@ != package_name@ && old(self).snapshot().contains_key(name_to_check@)
                ==> {
                &&& final(self).counters.found == old(self).counters.found + 1
                &&& final(self).counters.not_found == old(self).counters.not_found
            },
            name_to_check@ != package_name@ && !old(self).snapshot().contains_key(name_to_check@)
                ==> {
                &&& final(self).counters.not_found == old(self).counters.not_found + 1
                &&& final(self).counters.found == old(self).counters.found
            },
    {
        if str_eq(name_to_check, package_name) {
            false
        } else {
            match self.get(name_to_check) {
                Some(checked) => !checked.shared_authors(package.authors()),
                None => false,
            }
        }
    }

    /// Does the semantic gate run for this pair: a configured gate, a
    /// structurally confirmed pair, and a description on both the candidate's
    /// corpus record and the matched package.
    pub open spec fn spec_gate_runs(
        &self,
        name_to_check: Seq<char>,
        package_name: Seq<char>,
        package: KrateView,
    ) -> bool {
        &&& spec_possible_squat(self.snapshot(), name_to_check, package_name, package)
        &&& self.config.semantic_gate is ThresholdGate
        &&& self.snapshot()[name_to_check].description is Some
        &&& package.description is Some
    }

    /// The squat-confirmation verdict for one (candidate, matched package)
    /// pair: structural confirmation, then the semantic gate, then the
    /// allow-list override, exactly in that order.
    ///
    /// The verdict is `Ok(spec_confirm(..))` for the semantic score the
    /// engine returned — no score where the semantic step is skipped. A
    /// `false` structural result is final regardless of descriptions and
    /// allow-list; an allow-listed pair is never confirmed; the only failure
    /// is a propagated engine failure, possible only at the semantic step.
    pub fn possible_squat<E: SimilarityEngine>(
        &mut self,
        engine: &mut E,
        name_to_check: &str,
        package_name: &str,
        package: &Krate,
    ) -> (r: Result<bool, Error>)
        requires
            old(self).wf(),
            old(self).counters.found + 2 <= u64::MAX,
            old(self).counters.not_found + 1 <= u64::MAX,
        ensures
            final(self).crates == old(self).crates,
            final(self).config == old(self).config,
            ({
                let structural = spec_possible_squat(
                    old(self).snapshot(),
                    name_to_check@,
                    package_name@,
                    package@,
                );
                let runs = old(self).spec_gate_runs(name_to_check@, package_name@, package@);
                let threshold = spec_similarity_threshold(old(self).config.semantic_gate);
                let allowed = spec_allowed(
                    old(self).config.allowed_crates@,
                    name_to_check@,
                    package_name@,
                );
                &&& (!runs ==> r == Ok::<bool, Error>(
                    spec_confirm(structural, None, threshold, allowed),
                ))
                &&& (runs ==> (r matches Ok(v) ==> exists|score: u64|
                    v == spec_confirm(structural, Some(score), threshold, allowed)))
                &&& (r is Err ==> runs)
                &&& (!structural ==> r == Ok::<bool, Error>(false))
                &&& (allowed ==> (r matches Ok(v) ==> !v))
                &&& (r matches Ok(v) && v ==> structural && !allowed)
            }),
            ({
                let structural = spec_possible_squat(
                    old(self).snapshot(),
                    name_to_check@,
                    package_name@,
                    package@,
                );
                let gate_on = old(self).config.semantic_gate is ThresholdGate;
                let same_name = name_to_check@ == package_name@;
                let in_corpus = old(self).snapshot().contains_key(name_to_check@);
                &&& (same_name ==> final(self).counters == old(self).counters)
                &&& (!same_name && !in_corpus ==> {
                    &&& final(self).counters.not_found == old(self).counters.not_found + 1
                    &&& final(self).counters.found == old(self).counters.found
                })
                &&& (!same_name && in_corpus && !(structural && gate_on) ==> {
                    &&& final(self).counters.found == old(self).counters.found + 1
                    &&& final(self).counters.not_found == old(self).counters.not_found
                })
                &&& (structural && gate_on ==> {
                    &&& final(self).counters.found == old(self).counters.found + 2
                    &&& final(self).counters.not_found == old(self).counters.not_found
                })
            }),
    {
        let structural = self.default_possible_squat(name_to_check, package_name, package);
        let threshold = self.config.similarity_threshold();
        let gate_enabled = match self.config.semantic_gate {
            SemanticGate::ThresholdGate { .. } => true,
            SemanticGate::NoGate => false,
        };
        let mut score: Option<u64> = None;
        if structural && gate_enabled {
            match self.get(name_to_check) {
                Some(check_package) => match (check_package.description(), package.description()) {
                    (Some(check_desc), Some(package_desc)) => {
                        match engine.similarity(check_desc.as_str(), package_desc.as_str()) {
                            Ok(s) => {
                                score = Some(s);
                            },
                            Err(e) => {
                                return Err(Error::Engine(e));
                            },
                        }
                    },
                    _ => {},
                },
                None => {},
            }
        }
        let allowed = self.config.allowed(name_to_check, package_name);
        Ok(confirm_with_score(structural, score, threshold, allowed))
    }
}

} // verus!
