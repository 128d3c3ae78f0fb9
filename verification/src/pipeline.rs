//! The pipeline executor threads a set of entries through an ordered list of
//! stages: every entry is scored by the stage, entries that fail are
//! filtered out, and survivors are sorted by descending score before they
//! become the input of the next stage.
//!
//! Sorting is by descending score only; the relative order of entries with
//! equal scores is unspecified, and callers must not depend on it.

use vstd::multiset::Multiset;
use vstd::prelude::*;
use vstd::seq_lib::group_to_multiset_ensures;
use vstd::string::StringExecFns;

use crate::loaders::{load_pure, spec_load_pure, FileData, LoaderKind};
use crate::scorers::{sat64, ScorerKind};
use crate::stage::{ScorerSpec, Stage};
use crate::stats::{spec_has_key, AppStats, RunStats};

verus! {

broadcast use group_to_multiset_ensures;

/// One entry together with the score a stage gave it.
pub struct ScoredEntry {
    /// The accumulated score of the stage that produced this value.
    pub score: u64,
    /// The entry itself.
    pub entry: FileData,
}

/// Scores are in descending order.
pub open spec fn sorted_desc(s: Seq<ScoredEntry>) -> bool {
    forall|i: int, j: int| 0 <= i < j < s.len() ==> s[i].score >= s[j].score
}

/// The entries of a scored sequence, in order, without their scores.
pub open spec fn spec_entries_of(s: Seq<ScoredEntry>) -> Seq<FileData> {
    s.map_values(|x: ScoredEntry| x.entry)
}

/// Every entry paired with the initial score of one, the conceptual input of
/// the first stage.
pub open spec fn spec_initial(entries: Seq<FileData>) -> Seq<ScoredEntry> {
    entries.map_values(|e: FileData| ScoredEntry { score: 1u64, entry: e })
}

/// What one stage produces, in input order, from entries and their loaded
/// contents: an entry whose content failed to load is dropped, a surviving
/// entry carries the stage's accumulated score, a filtered entry is dropped.
pub open spec fn spec_stage_results(
    stage: Stage,
    entries: Seq<FileData>,
    contents: Seq<Option<Vec<u8>>>,
) -> Seq<ScoredEntry>
    decreases entries.len(),
{
    if entries.len() == 0 {
        Seq::empty()
    } else {
        let rest = spec_stage_results(stage, entries.drop_first(), contents.drop_first());
        match contents[0] {
            Option::None => rest,
            Option::Some(c) => {
                if stage.survives(c@) {
                    seq![ScoredEntry { score: sat64(stage.total(c@)) as u64, entry: entries[0] }]
                        + rest
                } else {
                    rest
                }
            },
        }
    }
}

/// What one stage with a pure loader produces, in input order: each entry's
/// content is what the loader extracts from its path.
pub open spec fn spec_stage_results_pure(stage: Stage, entries: Seq<FileData>) -> Seq<ScoredEntry>
    decreases entries.len(),
{
    if entries.len() == 0 {
        Seq::empty()
    } else {
        let c = spec_load_pure(stage.loader, entries[0]@);
        let rest = spec_stage_results_pure(stage, entries.drop_first());
        if stage.survives(c) {
            seq![ScoredEntry { score: sat64(stage.total(c)) as u64, entry: entries[0] }] + rest
        } else {
            rest
        }
    }
}

/// Sort scored entries by descending score. The result is a permutation of
/// the input; nothing more is promised of the relative order of entries with
/// equal scores.
pub fn sort_entries_desc(entries: Vec<ScoredEntry>) -> (r: Vec<ScoredEntry>)
    ensures
        sorted_desc(r@),
        r@.to_multiset() == entries@.to_multiset(),
        r@.len() == entries@.len(),
{
    let mut src = entries;
    let mut out: Vec<ScoredEntry> = Vec::new();
    while src.len() > 0
        invariant
            sorted_desc(out@),
            forall|i: int, j: int|
                0 <= i < out@.len() && 0 <= j < src@.len() ==> out@[i].score >= src@[j].score,
            out@.to_multiset().add(src@.to_multiset()) =~= entries@.to_multiset(),
            out@.len() + src@.len() == entries@.len(),
        decreases src@.len(),
    {
        let mut best: usize = 0;
        let mut k: usize = 1;
        while k < src.len()
            invariant
                src@.len() > 0,
                best < k <= src@.len(),
                forall|j: int| 0 <= j < k ==> src@[j].score <= src@[best as int].score,
            decreases src@.len() - k,
        {
            if src[k].score > src[best].score {
                best = k;
            }
            k = k + 1;
        }
        let ghost pre_src = src@;
        let ghost pre_out = out@;
        let item = src.remove(best);
        out.push(item);
        proof {
            assert(out@.to_multiset() =~= pre_out.to_multiset().insert(item));
            assert(src@.to_multiset() =~= pre_src.to_multiset().remove(item));
            assert(pre_src.to_multiset().contains(item)) by {
                assert(pre_src[best as int] == item);
            }
            assert(out@.to_multiset().add(src@.to_multiset()) =~= pre_out.to_multiset().add(
                pre_src.to_multiset(),
            ));
            assert(forall|j: int|
                0 <= j < src@.len() ==> src@[j] == pre_src[j] || src@[j] == pre_src[j + 1]);
        }
    }
    proof {
        assert(src@.to_multiset() =~= Multiset::<ScoredEntry>::empty());
        assert(out@.to_multiset() =~= entries@.to_multiset());
        out@.to_multiset_ensures();
        entries@.to_multiset_ensures();
    }
    out
}

/// Run one stage over its input entries and their already loaded contents:
/// score each entry, drop failed loads and filtered entries, and sort the
/// survivors by descending score. Zero input entries produce an empty
/// result; that is not an error.
pub fn run_stage_with_contents(
    stage: &Stage,
    entries: Vec<FileData>,
    contents: Vec<Option<Vec<u8>>>,
    stats: &mut RunStats,
) -> (out: Vec<ScoredEntry>)
    requires
        old(stats).wf(),
        entries@.len() == contents@.len(),
    ensures
        final(stats).wf(),
        sorted_desc(out@),
        out@.to_multiset() == spec_stage_results(*stage, entries@, contents@).to_multiset(),
        entries@.len() == 0 ==> out@.len() == 0,
        forall|k: Seq<char>|
            #[trigger] spec_has_key(final(stats).operations@, k) ==> spec_has_key(
                old(stats).operations@,
                k,
            ) || exists|j: int| 0 <= j < stage.scorers@.len() && k == stage.scorer_key(j),
{
    let ghost orig_entries = entries@;
    let ghost orig_contents = contents@;
    let mut entries = entries;
    let mut contents = contents;
    let mut scored: Vec<ScoredEntry> = Vec::new();
    while entries.len() > 0
        invariant
            stats.wf(),
            entries@.len() == contents@.len(),
            scored@ + spec_stage_results(*stage, entries@, contents@) =~= spec_stage_results(
                *stage,
                orig_entries,
                orig_contents,
            ),
            forall|k: Seq<char>|
                #[trigger] spec_has_key(stats.operations@, k) ==> spec_has_key(
                    old(stats).operations@,
                    k,
                ) || exists|j: int| 0 <= j < stage.scorers@.len() && k == stage.scorer_key(j),
        decreases entries@.len(),
    {
        let ghost pre_entries = entries@;
        let ghost pre_contents = contents@;
        let ghost pre_ops = stats.operations@;
        let entry = entries.remove(0);
        let content = contents.remove(0);
        proof {
            assert(entries@ =~= pre_entries.drop_first());
            assert(contents@ =~= pre_contents.drop_first());
        }
        match content {
            Option::Some(c) => {
                let outcome = stage.evaluate_with_stats(&c, stats);
                proof {
                    crate::stage::lemma_evaluated_in_range(*stage, c@);
                    assert forall|k: Seq<char>|
                        #[trigger] spec_has_key(stats.operations@, k) && !spec_has_key(
                        old(stats).operations@,
                        k,
                    ) implies exists|j: int|
                        0 <= j < stage.scorers@.len() && k == stage.scorer_key(j) by {
                        if !spec_has_key(pre_ops, k) {
                            let j = choose|j: int|
                                0 <= j < outcome.evaluated && k == stage.scorer_key(j);
                            assert(0 <= j < stage.scorers@.len() && k == stage.scorer_key(j));
                        }
                    }
                }
                if outcome.survived {
                    scored.push(ScoredEntry { score: outcome.score, entry });
                }
            },
            Option::None => {},
        }
    }
    proof {
        assert(spec_stage_results(*stage, entries@, contents@) =~= Seq::<ScoredEntry>::empty());
        assert(scored@ =~= spec_stage_results(*stage, orig_entries, orig_contents));
        if orig_entries.len() == 0 {
            assert(spec_stage_results(*stage, orig_entries, orig_contents) =~= Seq::<
                ScoredEntry,
            >::empty());
        }
    }
    sort_entries_desc(scored)
}

/// Run one stage with a pure loader over its input entries: load each
/// entry's content from its path, score it, drop filtered entries, and sort
/// the survivors by descending score.
pub fn run_stage(stage: &Stage, entries: Vec<FileData>, stats: &mut RunStats) -> (out: Vec<
    ScoredEntry,
>)
    requires
        old(stats).wf(),
        stage.loader.is_pure(),
    ensures
        final(stats).wf(),
        sorted_desc(out@),
        out@.to_multiset() == spec_stage_results_pure(*stage, entries@).to_multiset(),
        entries@.len() == 0 ==> out@.len() == 0,
        forall|k: Seq<char>|
            #[trigger] spec_has_key(final(stats).operations@, k) ==> spec_has_key(
                old(stats).operations@,
                k,
            ) || exists|j: int| 0 <= j < stage.scorers@.len() && k == stage.scorer_key(j),
{
    let ghost orig_entries = entries@;
    let mut entries = entries;
    let mut scored: Vec<ScoredEntry> = Vec::new();
    while entries.len() > 0
        invariant
            stats.wf(),
            stage.loader.is_pure(),
            scored@ + spec_stage_results_pure(*stage, entries@) =~= spec_stage_results_pure(
                *stage,
                orig_entries,
            ),
            forall|k: Seq<char>|
                #[trigger] spec_has_key(stats.operations@, k) ==> spec_has_key(
                    old(stats).operations@,
                    k,
                ) || exists|j: int| 0 <= j < stage.scorers@.len() && k == stage.scorer_key(j),
        decreases entries@.len(),
    {
        let ghost pre_entries = entries@;
        let ghost pre_ops = stats.operations@;
        let entry = entries.remove(0);
        proof {
            assert(entries@ =~= pre_entries.drop_first());
        }
        let content = load_pure(&stage.loader, &entry);
        let outcome = stage.evaluate_with_stats(&content, stats);
        proof {
            crate::stage::lemma_evaluated_in_range(*stage, content@);
            assert forall|k: Seq<char>|
                #[trigger] spec_has_key(stats.operations@, k) && !spec_has_key(
                old(stats).operations@,
                k,
            ) implies exists|j: int|
                0 <= j < stage.scorers@.len() && k == stage.scorer_key(j) by {
                if !spec_has_key(pre_ops, k) {
                    let j = choose|j: int|
                        0 <= j < outcome.evaluated && k == stage.scorer_key(j);
                    assert(0 <= j < stage.scorers@.len() && k == stage.scorer_key(j));
                }
            }
        }
        if outcome.survived {
            scored.push(ScoredEntry { score: outcome.score, entry });
        }
    }
    proof {
        assert(spec_stage_results_pure(*stage, entries@) =~= Seq::<ScoredEntry>::empty());
        assert(scored@ =~= spec_stage_results_pure(*stage, orig_entries));
        if orig_entries.len() == 0 {
            assert(spec_stage_results_pure(*stage, orig_entries) =~= Seq::<ScoredEntry>::empty());
        }
    }
    sort_entries_desc(scored)
}

/// The valid stages of a descriptor list, in order: a stage whose scorers
/// are all `Pass` is dropped.
pub open spec fn spec_active(stages: Seq<Stage>) -> Seq<Stage>
    decreases stages.len(),
{
    if stages.len() == 0 {
        Seq::empty()
    } else {
        let rest = spec_active(stages.drop_first());
        if stages[0].valid() {
            seq![stages[0]] + rest
        } else {
            rest
        }
    }
}

/// Every stage of an active pipeline is valid.
pub proof fn lemma_active_all_valid(stages: Seq<Stage>)
    ensures
        forall|i: int| 0 <= i < spec_active(stages).len() ==> spec_active(stages)[i].valid(),
    decreases stages.len(),
{
    if stages.len() > 0 {
        lemma_active_all_valid(stages.drop_first());
        let rest = spec_active(stages.drop_first());
        if stages[0].valid() {
            assert(spec_active(stages) == seq![stages[0]] + rest);
            assert forall|i: int| 0 <= i < spec_active(stages).len() implies spec_active(
                stages,
            )[i].valid() by {
                if i == 0 {
                    assert(spec_active(stages)[0] == stages[0]);
                } else {
                    assert(spec_active(stages)[i] == rest[i - 1]);
                }
            }
        } else {
            assert(spec_active(stages) == rest);
        }
    }
}

/// A stage whose scorers are all `Pass` is invalid, so it is never part of
/// an active pipeline.
pub proof fn lemma_pass_only_stage_invalid(stage: Stage)
    requires
        forall|i: int|
            0 <= i < stage.scorers@.len() ==> stage.scorers@[i].kind == ScorerKind::Pass,
    ensures
        !stage.valid(),
{
}

/// Drop the invalid stages of a descriptor list, keeping the valid ones in
/// order.
pub fn active_stages(stages: Vec<Stage>) -> (r: Vec<Stage>)
    ensures
        r@ == spec_active(stages@),
{
    let ghost orig = stages@;
    let mut stages = stages;
    let mut r: Vec<Stage> = Vec::new();
    while stages.len() > 0
        invariant
            r@ + spec_active(stages@) =~= spec_active(orig),
        decreases stages@.len(),
    {
        let ghost pre = stages@;
        let stage = stages.remove(0);
        proof {
            assert(stages@ =~= pre.drop_first());
        }
        if stage.is_valid() {
            r.push(stage);
        }
    }
    proof {
        assert(spec_active(stages@) =~= Seq::<Stage>::empty());
        assert(r@ =~= spec_active(orig));
    }
    r
}

/// The default pass-through stage that an executor substitutes for an empty
/// stage list: a single `Pass` scorer, so every entry survives with score
/// one.
pub fn default_stage() -> (r: Stage)
    ensures
        r.scorers@.len() == 1,
        r.scorers@[0].kind == ScorerKind::Pass,
        r.loader.is_pure(),
        r.insensitive,
        r@ == crate::stage::spec_default_stagev(),
{
    let mut scorers: Vec<ScorerSpec> = Vec::new();
    scorers.push(ScorerSpec { kind: ScorerKind::Pass, target: String::new() });
    let r = Stage { loader: LoaderKind::Title, scorers, insensitive: true };
    proof {
        assert(r@.scorers =~= crate::stage::spec_default_stagev().scorers);
    }
    r
}

/// A stage whose single scorer is `Pass` keeps every entry, each with score
/// one: it reproduces the initial scoring of its input.
pub proof fn lemma_pass_stage_results(stage: Stage, entries: Seq<FileData>)
    requires
        stage.scorers@.len() == 1,
        stage.scorers@[0].kind == ScorerKind::Pass,
    ensures
        spec_stage_results_pure(stage, entries) == spec_initial(entries),
    decreases entries.len(),
{
    if entries.len() == 0 {
        assert(spec_stage_results_pure(stage, entries) =~= spec_initial(entries));
    } else {
        let c = spec_load_pure(stage.loader, entries[0]@);
        assert(stage.scorer_score(0, c) == 1);
        assert(stage.survives(c));
        assert(stage.total(c) == stage.total_prefix(c, 1));
        assert(stage.total_prefix(c, 1) == stage.total_prefix(c, 0) + stage.scorer_score(0, c));
        assert(sat64(stage.total(c)) == 1);
        lemma_pass_stage_results(stage, entries.drop_first());
        assert(spec_stage_results_pure(stage, entries) =~= spec_initial(entries));
    }
}

/// The output of running one stage on the given input entries: the stage's
/// results in some order, sorted by descending score.
pub open spec fn is_stage_output(
    stage: Stage,
    input: Seq<FileData>,
    output: Seq<ScoredEntry>,
) -> bool {
    &&& sorted_desc(output)
    &&& output.to_multiset() == spec_stage_results_pure(stage, input).to_multiset()
}

/// The output of threading the input entries through the whole stage list:
/// each stage's sorted output, its scores dropped, is the input of the next.
/// An empty stage list leaves the input as it stands, each entry with the
/// initial score of one.
pub open spec fn is_pipeline_output(
    stages: Seq<Stage>,
    input: Seq<FileData>,
    output: Seq<ScoredEntry>,
) -> bool
    decreases stages.len(),
{
    if stages.len() == 0 {
        output == spec_initial(input)
    } else if stages.len() == 1 {
        is_stage_output(stages[0], input, output)
    } else {
        exists|mid: Seq<ScoredEntry>|
            {
                &&& #[trigger] is_stage_output(stages[0], input, mid)
                &&& is_pipeline_output(stages.skip(1), spec_entries_of(mid), output)
            }
    }
}

/// Dropping the scores of the initially scored entries gives them back.
proof fn lemma_entries_of_initial(entries: Seq<FileData>)
    ensures
        spec_entries_of(spec_initial(entries)) =~= entries,
{
}

/// Chaining: one more stage after a finished pipeline extends the pipeline.
proof fn lemma_pipeline_snoc(
    stages: Seq<Stage>,
    stage: Stage,
    input: Seq<FileData>,
    mid: Seq<ScoredEntry>,
    output: Seq<ScoredEntry>,
)
    requires
        is_pipeline_output(stages, input, mid),
        is_stage_output(stage, spec_entries_of(mid), output),
    ensures
        is_pipeline_output(stages.push(stage), input, output),
    decreases stages.len(),
{
    let extended = stages.push(stage);
    if stages.len() == 0 {
        assert(mid == spec_initial(input));
        lemma_entries_of_initial(input);
        assert(extended[0] == stage);
        assert(is_stage_output(extended[0], input, output));
    } else if stages.len() == 1 {
        assert(is_stage_output(stages[0], input, mid));
        assert(extended.skip(1) =~= seq![stage]);
        assert(is_pipeline_output(extended.skip(1), spec_entries_of(mid), output));
        assert(extended[0] == stages[0]);
        assert(is_stage_output(extended[0], input, mid) && is_pipeline_output(
            extended.skip(1),
            spec_entries_of(mid),
            output,
        ));
    } else {
        let m0 = choose|m0: Seq<ScoredEntry>|
            {
                &&& #[trigger] is_stage_output(stages[0], input, m0)
                &&& is_pipeline_output(stages.skip(1), spec_entries_of(m0), mid)
            };
        lemma_pipeline_snoc(stages.skip(1), stage, spec_entries_of(m0), mid, output);
        assert(extended.skip(1) =~= stages.skip(1).push(stage));
        assert(extended[0] == stages[0]);
        assert(is_stage_output(extended[0], input, m0) && is_pipeline_output(
            extended.skip(1),
            spec_entries_of(m0),
            output,
        ));
    }
}

/// Filtering keeps loader purity: the active stages of an all-pure list are
/// all pure.
proof fn lemma_active_pure(stages: Seq<Stage>)
    requires
        forall|i: int| 0 <= i < stages.len() ==> stages[i].loader.is_pure(),
    ensures
        forall|i: int|
            0 <= i < spec_active(stages).len() ==> spec_active(stages)[i].loader.is_pure(),
    decreases stages.len(),
{
    if stages.len() > 0 {
        assert(stages[0] == stages[0]);
        assert forall|i: int| 0 <= i < stages.drop_first().len() implies stages.drop_first()[i]
            .loader.is_pure() by {
            assert(stages.drop_first()[i] == stages[i + 1]);
        }
        lemma_active_pure(stages.drop_first());
        let rest = spec_active(stages.drop_first());
        if stages[0].valid() {
            assert(spec_active(stages) == seq![stages[0]] + rest);
            assert forall|i: int| 0 <= i < spec_active(stages).len() implies spec_active(
                stages,
            )[i].loader.is_pure() by {
                if i == 0 {
                    assert(spec_active(stages)[0] == stages[0]);
                } else {
                    assert(spec_active(stages)[i] == rest[i - 1]);
                }
            }
        } else {
            assert(spec_active(stages) == rest);
        }
    }
}

/// Drop the scores of a stage's output: its entries, in order, become the
/// input of the next stage.
pub fn strip_scores(scored: Vec<ScoredEntry>) -> (r: Vec<FileData>)
    ensures
        r@ == spec_entries_of(scored@),
{
    let ghost orig = scored@;
    let mut scored = scored;
    let mut r: Vec<FileData> = Vec::new();
    while scored.len() > 0
        invariant
            r@.len() + scored@.len() == orig.len(),
            forall|i: int| 0 <= i < r@.len() ==> r@[i] == orig[i].entry,
            forall|i: int| 0 <= i < scored@.len() ==> scored@[i] == orig[r@.len() + i],
        decreases scored@.len(),
    {
        let ghost pre = scored@;
        let se = scored.remove(0);
        proof {
            assert(scored@ =~= pre.drop_first());
        }
        r.push(se.entry);
    }
    proof {
        assert(r@ =~= spec_entries_of(orig));
    }
    r
}

/// Thread the entries through the stage list: drop the invalid stages, and
/// when none is left run the default pass-through stage instead, so that no
/// filter at all lists everything. Each stage's sorted survivors, scores
/// dropped, are the input of the next stage; one statistics record per stage
/// ran is appended. Zero input entries give an empty result whatever the
/// stage list; that is not an error.
pub fn run_pipeline(stages: Vec<Stage>, entries: Vec<FileData>, app_stats: &mut AppStats) -> (out:
    Vec<ScoredEntry>)
    requires
        forall|i: int| 0 <= i < stages@.len() ==> stages@[i].loader.is_pure(),
    ensures
        entries@.len() == 0 ==> out@.len() == 0,
        spec_active(stages@).len() > 0 ==> is_pipeline_output(spec_active(stages@), entries@, out@),
        spec_active(stages@).len() == 0 ==> sorted_desc(out@) && out@.to_multiset()
            == spec_initial(entries@).to_multiset(),
        final(app_stats).runs@.len() > old(app_stats).runs@.len(),
{
    let ghost orig_entries = entries@;
    let ghost orig_stages = stages@;
    let active = active_stages(stages);
    proof {
        lemma_active_pure(orig_stages);
    }
    if active.len() == 0 {
        let stage = default_stage();
        let mut rs = RunStats::new(&stage);
        let out = run_stage(&stage, entries, &mut rs);
        rs.stop_timer();
        app_stats.push_run(rs);
        proof {
            lemma_pass_stage_results(stage, orig_entries);
        }
        return out;
    }
    let n = active.len();
    let mut rs = RunStats::new(&active[0]);
    let mut scored = run_stage(&active[0], entries, &mut rs);
    rs.stop_timer();
    app_stats.push_run(rs);
    proof {
        assert(spec_active(orig_stages).take(1) =~= seq![spec_active(orig_stages)[0]]);
        assert(is_pipeline_output(spec_active(orig_stages).take(1), orig_entries, scored@));
    }
    let mut j: usize = 1;
    while j < n
        invariant
            1 <= j <= n,
            n == active@.len(),
            active@ == spec_active(orig_stages),
            forall|i: int| 0 <= i < active@.len() ==> active@[i].loader.is_pure(),
            is_pipeline_output(active@.take(j as int), orig_entries, scored@),
            orig_entries.len() == 0 ==> scored@.len() == 0,
            app_stats.runs@.len() > old(app_stats).runs@.len(),
        decreases n - j,
    {
        let ghost pre_scored = scored@;
        let input = strip_scores(scored);
        let mut rs = RunStats::new(&active[j]);
        let out = run_stage(&active[j], input, &mut rs);
        rs.stop_timer();
        app_stats.push_run(rs);
        proof {
            lemma_pipeline_snoc(
                active@.take(j as int),
                active@[j as int],
                orig_entries,
                pre_scored,
                out@,
            );
            assert(active@.take(j + 1 as int) =~= active@.take(j as int).push(active@[j as int]));
            if orig_entries.len() == 0 {
                assert(spec_entries_of(pre_scored).len() == 0);
            }
        }
        scored = out;
        j = j + 1;
    }
    proof {
        assert(active@.take(n as int) =~= active@);
    }
    scored
}

} // verus!
