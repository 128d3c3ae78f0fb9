//! A stage binds one content loader to an ordered chain of scorers plus a
//! case-sensitivity flag, and evaluates one entry's content end to end.
//!
//! Scorers run in declared order and short-circuit: the first scorer that
//! fails ends the evaluation, so later scorers in the chain are never
//! invoked and any side effects they would have had do not occur.

use vstd::prelude::*;
use vstd::string::StrSliceExecFns;
use vstd::string::StringExecFns;
use vstd::utf8::encode_utf8;

use crate::bytes::{copy_bytes, fold_bytes, spec_fold};
use crate::loaders::LoaderKind;
use crate::scorers::{
    create_key, sat64, score_kind, scorer_name, spec_score, spec_scorer_name, ScorerKind,
};
use crate::stats::{sat_add, RunStats};

verus! {

/// One scorer operation: a kind and the target it scores against.
pub struct ScorerSpec {
    /// Which scorer operation to run.
    pub kind: ScorerKind,
    /// The target string the scorer compares content against.
    pub target: String,
}

/// The mathematical form of a scorer operation: its kind and its target as
/// a character sequence.
pub struct ScorerSpecV {
    /// Which scorer operation to run.
    pub kind: ScorerKind,
    /// The target the scorer compares content against.
    pub target: Seq<char>,
}

impl View for ScorerSpec {
    type V = ScorerSpecV;

    open spec fn view(&self) -> ScorerSpecV {
        ScorerSpecV { kind: self.kind, target: self.target@ }
    }
}

/// The target of a scorer, as bytes.
pub open spec fn spec_target_bytes(sp: ScorerSpec) -> Seq<u8> {
    encode_utf8(sp.target@)
}

/// Content or target as the stage's scorers see it: folded to lowercase when
/// the stage is case-insensitive, untouched otherwise.
pub open spec fn spec_prep(insensitive: bool, s: Seq<u8>) -> Seq<u8> {
    if insensitive {
        spec_fold(s)
    } else {
        s
    }
}

/// One inspection stage: a loader, an ordered chain of scorers, and a
/// case-sensitivity flag.
pub struct Stage {
    /// The content extraction strategy bound to this stage.
    pub loader: LoaderKind,
    /// The scorers to run, in order, each with its target.
    pub scorers: Vec<ScorerSpec>,
    /// Whether content and targets are lowercased before scoring.
    pub insensitive: bool,
}

/// The mathematical form of a stage: its loader, its scorer chain, and its
/// case-sensitivity flag.
pub struct StageV {
    /// The content extraction strategy bound to this stage.
    pub loader: crate::loaders::LoaderV,
    /// The scorers to run, in order, each with its target.
    pub scorers: Seq<ScorerSpecV>,
    /// Whether content and targets are lowercased before scoring.
    pub insensitive: bool,
}

impl View for Stage {
    type V = StageV;

    open spec fn view(&self) -> StageV {
        StageV {
            loader: self.loader@,
            scorers: self.scorers@.map_values(|sp: ScorerSpec| sp@),
            insensitive: self.insensitive,
        }
    }
}

/// A stage of this mathematical form is valid only if at least one of its
/// scorers is not `Pass`.
pub open spec fn stagev_valid(s: StageV) -> bool {
    exists|i: int| 0 <= i < s.scorers.len() && s.scorers[i].kind != ScorerKind::Pass
}

/// The mathematical form of the default pass-through stage: a title loader
/// with a single `Pass` scorer on an empty target, case-insensitive.
pub open spec fn spec_default_stagev() -> StageV {
    StageV {
        loader: crate::loaders::LoaderV::Title,
        scorers: seq![ScorerSpecV { kind: ScorerKind::Pass, target: Seq::empty() }],
        insensitive: true,
    }
}

/// The outcome of evaluating one entry's content against a stage.
pub struct StageOutcome {
    /// Whether the entry survived every scorer of the stage.
    pub survived: bool,
    /// The accumulated score; meaningful when the entry survived.
    pub score: u64,
    /// How many scorers were invoked before the evaluation ended.
    pub evaluated: usize,
}

impl Stage {
    /// The score of scorer `i` on the given raw content.
    pub open spec fn scorer_score(&self, i: int, content: Seq<u8>) -> nat {
        spec_score(
            self.scorers@[i].kind,
            spec_prep(self.insensitive, content),
            spec_prep(self.insensitive, spec_target_bytes(self.scorers@[i])),
        )
    }

    /// An entry with this content survives the stage: every scorer in the
    /// chain scores at least one.
    pub open spec fn survives(&self, content: Seq<u8>) -> bool {
        forall|i: int| 0 <= i < self.scorers@.len() ==> self.scorer_score(i, content) >= 1
    }

    /// The sum of the first `n` scorer scores on the given content.
    pub open spec fn total_prefix(&self, content: Seq<u8>, n: int) -> nat
        decreases n,
    {
        if n <= 0 {
            0
        } else {
            self.total_prefix(content, n - 1) + self.scorer_score(n - 1, content)
        }
    }

    /// The accumulated score of a surviving entry: the sum over the whole
    /// scorer chain.
    pub open spec fn total(&self, content: Seq<u8>) -> nat {
        self.total_prefix(content, self.scorers@.len() as int)
    }

    /// How many scorers starting from position `k` get invoked: evaluation
    /// stops right after the first failing scorer.
    pub open spec fn spec_eval_from(&self, content: Seq<u8>, k: int) -> int
        decreases self.scorers@.len() - k,
    {
        if k < 0 || k >= self.scorers@.len() {
            k
        } else if self.scorer_score(k, content) < 1 {
            k + 1
        } else {
            self.spec_eval_from(content, k + 1)
        }
    }

    /// How many scorers of the chain get invoked on the given content.
    pub open spec fn evaluated(&self, content: Seq<u8>) -> int {
        self.spec_eval_from(content, 0)
    }

    /// A stage is valid only if at least one of its scorers is not `Pass`;
    /// a stage of only `Pass` scorers is a parser default, not an operation.
    pub open spec fn valid(&self) -> bool {
        exists|i: int| 0 <= i < self.scorers@.len() && self.scorers@[i].kind != ScorerKind::Pass
    }

    /// Whether the stage is valid: at least one scorer is not `Pass`.
    pub fn is_valid(&self) -> (r: bool)
        ensures
            r == self.valid(),
            r == stagev_valid(self@),
    {
        let mut i: usize = 0;
        while i < self.scorers.len()
            invariant
                i <= self.scorers@.len(),
                forall|j: int| 0 <= j < i ==> self.scorers@[j].kind == ScorerKind::Pass,
            decreases self.scorers@.len() - i,
        {
            if !matches!(self.scorers[i].kind, ScorerKind::Pass) {
                assert(self.valid());
                assert(self@.scorers[i as int].kind == self.scorers@[i as int].kind);
                assert(stagev_valid(self@));
                return true;
            }
            i = i + 1;
        }
        assert forall|j: int| 0 <= j < self@.scorers.len() implies self@.scorers[j].kind
            == ScorerKind::Pass by {
            assert(self@.scorers[j].kind == self.scorers@[j].kind);
        }
        false
    }

    /// The statistics key of scorer `i` of this stage.
    pub open spec fn scorer_key(&self, i: int) -> Seq<char> {
        crate::scorers::spec_key(
            spec_scorer_name(self.scorers@[i].kind),
            self.scorers@[i].target@,
        )
    }

    /// Evaluate one entry's loaded content against this stage, recording
    /// each scorer invocation in the stage statistics: every scorer that ran
    /// has its key in the recorded operations.
    pub fn evaluate_with_stats(&self, content: &Vec<u8>, stats: &mut RunStats) -> (r: StageOutcome)
        requires
            old(stats).wf(),
        ensures
            final(stats).wf(),
            r.survived == self.survives(content@),
            r.survived ==> r.score as nat == sat64(self.total(content@)),
            r.evaluated == self.evaluated(content@),
            forall|j: int|
                0 <= j < r.evaluated ==> crate::stats::spec_has_key(
                    final(stats).operations@,
                    self.scorer_key(j),
                ),
            forall|k: Seq<char>|
                #[trigger] crate::stats::spec_has_key(final(stats).operations@, k)
                    ==> crate::stats::spec_has_key(old(stats).operations@, k) || exists|j: int|
                    0 <= j < r.evaluated && k == self.scorer_key(j),
    {
        let prepared = if self.insensitive {
            fold_bytes(content)
        } else {
            copy_bytes(content)
        };
        let clen = content.len();
        let mut score: u64 = 0;
        let mut i: usize = 0;
        let n = self.scorers.len();
        while i < n
            invariant
                old(stats).wf(),
                stats.wf(),
                i <= n,
                n == self.scorers@.len(),
                prepared@ == spec_prep(self.insensitive, content@),
                forall|j: int| 0 <= j < i ==> self.scorer_score(j, content@) >= 1,
                score as nat == sat64(self.total_prefix(content@, i as int)),
                self.evaluated(content@) == self.spec_eval_from(content@, i as int),
                forall|j: int|
                    0 <= j < i ==> crate::stats::spec_has_key(
                        stats.operations@,
                        self.scorer_key(j),
                    ),
                forall|k: Seq<char>|
                    #[trigger] crate::stats::spec_has_key(stats.operations@, k)
                        ==> crate::stats::spec_has_key(old(stats).operations@, k) || exists|j: int|
                        0 <= j < i && k == self.scorer_key(j),
            decreases n - i,
        {
            let sp = &self.scorers[i];
            let raw_target = sp.target.as_str().as_bytes_vec();
            let target = if self.insensitive {
                fold_bytes(&raw_target)
            } else {
                raw_target
            };
            let key = create_key(&String::from_str(scorer_name(sp.kind)), &sp.target);
            let ghost ops_pre = stats.operations@;
            stats.start_operation(&key, clen);
            let ghost ops_mid = stats.operations@;
            let s = score_kind(sp.kind, &prepared, &target);
            stats.stop_operation(&key);
            proof {
                assert(key@ == self.scorer_key(i as int));
                assert forall|j: int| 0 <= j < ops_pre.len() implies ops_mid[j].name@
                    == ops_pre[j].name@ by {
                    if crate::stats::spec_has_key(ops_pre, key@) {
                        let idx = crate::stats::spec_key_index(ops_pre, key@);
                        if j != idx {
                            assert(ops_mid[j] == ops_pre[j]);
                        } else {
                            assert(ops_mid[idx].name == ops_pre[idx].name);
                        }
                    } else {
                        assert(ops_mid[j] == ops_pre[j]);
                    }
                }
                let ops_now = stats.operations@;
                assert forall|j: int| 0 <= j < ops_mid.len() implies ops_now[j].name@
                    == ops_mid[j].name@ by {
                    if crate::stats::spec_has_key(ops_mid, key@) {
                        let idx = crate::stats::spec_key_index(ops_mid, key@);
                        if j != idx {
                            assert(ops_now[j] == ops_mid[j]);
                        } else {
                            assert(ops_now[idx].name == ops_mid[idx].name);
                        }
                    } else {
                        assert(ops_now[j] == ops_mid[j]);
                    }
                }
                assert forall|j: int| 0 <= j <= i implies crate::stats::spec_has_key(
                    stats.operations@,
                    self.scorer_key(j),
                ) by {
                    if j < i {
                        crate::stats::lemma_keys_preserved(ops_pre, ops_mid, self.scorer_key(j));
                    }
                    crate::stats::lemma_keys_preserved(ops_mid, ops_now, self.scorer_key(j));
                }
                assert(ops_now.len() == ops_mid.len());
                assert forall|k: Seq<char>|
                    crate::stats::spec_has_key(ops_now, k) implies crate::stats::spec_has_key(
                    ops_pre,
                    k,
                ) || k == key@ by {
                    let w = choose|w: int| 0 <= w < ops_now.len() && ops_now[w].name@ == k;
                    assert(ops_mid[w].name@ == k);
                    if w < ops_pre.len() {
                        assert(ops_pre[w].name@ == k);
                    } else {
                        assert(ops_mid[w].name@ == key@);
                    }
                }
                assert forall|k: Seq<char>|
                    #[trigger] crate::stats::spec_has_key(stats.operations@, k)
                        && !crate::stats::spec_has_key(
                    old(stats).operations@,
                    k,
                ) implies exists|j: int| 0 <= j <= i && k == self.scorer_key(j) by {
                    if crate::stats::spec_has_key(ops_pre, k) {
                        let j = choose|j: int| 0 <= j < i && k == self.scorer_key(j);
                        assert(0 <= j <= i && k == self.scorer_key(j));
                    } else {
                        assert(k == self.scorer_key(i as int));
                    }
                }
                assert(target@ == spec_prep(self.insensitive, spec_target_bytes(self.scorers@[
                i as int])));
                assert(s as nat == sat64(self.scorer_score(i as int, content@)));
                lemma_sat64_add(
                    self.total_prefix(content@, i as int),
                    self.scorer_score(i as int, content@),
                );
            }
            score = sat_add(score, s);
            if s < 1 {
                proof {
                    assert(self.scorer_score(i as int, content@) < 1);
                    assert(self.spec_eval_from(content@, i as int) == i + 1);
                    assert(!self.survives(content@));
                }
                return StageOutcome { survived: false, score, evaluated: i + 1 };
            }
            proof {
                assert(self.scorer_score(i as int, content@) >= 1) by {
                    assert(sat64(self.scorer_score(i as int, content@)) >= 1);
                }
            }
            i = i + 1;
        }
        StageOutcome { survived: true, score, evaluated: n }
    }

    /// Evaluate one entry's loaded content against this stage.
    pub fn evaluate(&self, content: &Vec<u8>) -> (r: StageOutcome)
        ensures
            r.survived == self.survives(content@),
            r.survived ==> r.score as nat == sat64(self.total(content@)),
            r.evaluated == self.evaluated(content@),
    {
        let mut stats = RunStats::new(self);
        self.evaluate_with_stats(content, &mut stats)
    }
}

/// Clamping distributes over addition: adding two clamped numbers and
/// clamping again equals clamping their true sum.
proof fn lemma_sat64_add(a: nat, b: nat)
    ensures
        sat64(sat64(a) + sat64(b)) == sat64(a + b),
{
}

/// With a single case-sensitive `Is` scorer, an entry survives the stage
/// exactly when its content equals the scorer's target, byte for byte.
pub proof fn lemma_is_exact_survival(stage: Stage, content: Seq<u8>)
    requires
        stage.scorers@.len() == 1,
        stage.scorers@[0].kind == ScorerKind::Is,
        !stage.insensitive,
    ensures
        stage.survives(content) <==> content == spec_target_bytes(stage.scorers@[0]),
{
    assert(stage.scorer_score(0, content) == spec_score(
        ScorerKind::Is,
        content,
        spec_target_bytes(stage.scorers@[0]),
    ));
    if content == spec_target_bytes(stage.scorers@[0]) {
        assert(forall|i: int|
            0 <= i < stage.scorers@.len() ==> stage.scorer_score(i, content) >= 1);
    } else {
        assert(stage.scorer_score(0, content) == 0);
    }
}

/// In a case-sensitive stage, an entry that survives an `Is` scorer
/// anywhere in the chain has content equal to that scorer's target, byte
/// for byte.
pub proof fn lemma_is_scorer_necessary(stage: Stage, content: Seq<u8>, i: int)
    requires
        0 <= i < stage.scorers@.len(),
        stage.scorers@[i].kind == ScorerKind::Is,
        !stage.insensitive,
        stage.survives(content),
    ensures
        content == spec_target_bytes(stage.scorers@[i]),
{
    assert(stage.scorer_score(i, content) >= 1);
}

/// With a single case-insensitive `Is` scorer, an entry survives the stage
/// exactly when its content equals the scorer's target after ASCII case
/// folding of both.
pub proof fn lemma_is_insensitive_survival(stage: Stage, content: Seq<u8>)
    requires
        stage.scorers@.len() == 1,
        stage.scorers@[0].kind == ScorerKind::Is,
        stage.insensitive,
    ensures
        stage.survives(content) <==> spec_fold(content) == spec_fold(
            spec_target_bytes(stage.scorers@[0]),
        ),
{
    assert(stage.scorer_score(0, content) == spec_score(
        ScorerKind::Is,
        spec_fold(content),
        spec_fold(spec_target_bytes(stage.scorers@[0])),
    ));
    if spec_fold(content) == spec_fold(spec_target_bytes(stage.scorers@[0])) {
        assert(forall|i: int|
            0 <= i < stage.scorers@.len() ==> stage.scorer_score(i, content) >= 1);
    } else {
        assert(stage.scorer_score(0, content) == 0);
    }
}

/// Helper: evaluation starting at `k` never runs past the end of the chain.
proof fn lemma_eval_from_in_range(stage: Stage, content: Seq<u8>, k: int)
    requires
        0 <= k <= stage.scorers@.len(),
    ensures
        k <= stage.spec_eval_from(content, k) <= stage.scorers@.len(),
    decreases stage.scorers@.len() - k,
{
    if k < stage.scorers@.len() && stage.scorer_score(k, content) >= 1 {
        lemma_eval_from_in_range(stage, content, k + 1);
    }
}

/// At most the whole scorer chain is ever evaluated.
pub proof fn lemma_evaluated_in_range(stage: Stage, content: Seq<u8>)
    ensures
        0 <= stage.evaluated(content) <= stage.scorers@.len(),
{
    lemma_eval_from_in_range(stage, content, 0);
}

/// Scorers after the first failing scorer are never evaluated: when scorer
/// `i` is the first to fail, exactly the scorers up to and including `i` run.
pub proof fn lemma_short_circuit(stage: Stage, content: Seq<u8>, i: int)
    requires
        0 <= i < stage.scorers@.len(),
        stage.scorer_score(i, content) < 1,
        forall|j: int| 0 <= j < i ==> stage.scorer_score(j, content) >= 1,
    ensures
        stage.evaluated(content) == i + 1,
{
    lemma_eval_from_reaches(stage, content, 0, i);
}

/// A surviving entry has every scorer of the chain evaluated.
pub proof fn lemma_survivor_evaluates_all(stage: Stage, content: Seq<u8>)
    requires
        stage.survives(content),
    ensures
        stage.evaluated(content) == stage.scorers@.len(),
{
    lemma_eval_from_all(stage, content, 0);
}

/// Helper: evaluation from `k` reaches the first failing index `i` and stops
/// right after it.
proof fn lemma_eval_from_reaches(stage: Stage, content: Seq<u8>, k: int, i: int)
    requires
        0 <= k <= i < stage.scorers@.len(),
        stage.scorer_score(i, content) < 1,
        forall|j: int| k <= j < i ==> stage.scorer_score(j, content) >= 1,
    ensures
        stage.spec_eval_from(content, k) == i + 1,
    decreases i - k,
{
    if k < i {
        lemma_eval_from_reaches(stage, content, k + 1, i);
    }
}

/// Helper: when every scorer from `k` on passes, evaluation runs to the end.
proof fn lemma_eval_from_all(stage: Stage, content: Seq<u8>, k: int)
    requires
        0 <= k <= stage.scorers@.len(),
        forall|j: int| k <= j < stage.scorers@.len() ==> stage.scorer_score(j, content) >= 1,
    ensures
        stage.spec_eval_from(content, k) == stage.scorers@.len(),
    decreases stage.scorers@.len() - k,
{
    if k < stage.scorers@.len() {
        lemma_eval_from_all(stage, content, k + 1);
    }
}

} // verus!
