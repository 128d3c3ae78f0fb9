//! Per-operation timing and size statistics, keyed by `name(target)`.
//!
//! Purely observational bookkeeping: nothing here is ever read back into
//! scoring. Counts and totals are exact saturating integers; a presentation
//! layer divides totals by counts for running averages.

use vstd::prelude::*;
use vstd::string::StringExecFns;

use crate::scorers::{create_key, sat64, scorer_name, spec_key, spec_scorer_name};
use crate::loaders::{loader_name, spec_loader_name};
use crate::stage::Stage;

verus! {

/// Nanoseconds from a wall clock, used only to measure elapsed spans.
///
/// Relies on std::time::SystemTime::now; the value depends on the machine
/// and the moment, so nothing is assumed of it.
#[verifier::external_body]
fn now_nanos() -> u64 {
    match std::time::SystemTime::now().duration_since(std::time::UNIX_EPOCH) {
        Ok(d) => d.as_nanos() as u64,
        Err(_) => 0,
    }
}

/// Add two counters, saturating at the largest representable value.
pub fn sat_add(a: u64, b: u64) -> (r: u64)
    ensures
        r as nat == sat64(a as nat + b as nat),
{
    if a > u64::MAX - b {
        u64::MAX
    } else {
        a + b
    }
}

/// Invocation statistics of one scorer application.
pub struct OperationStats {
    /// The `name(target)` key of the operation.
    pub name: String,
    /// How many invocations have completed.
    pub n: u64,
    /// Total nanoseconds across completed invocations.
    pub total_nanos: u64,
    /// Total content length across started invocations.
    pub total_size: u64,
    /// The clock value when the current invocation started.
    pub started: u64,
}

impl OperationStats {
    /// Fresh statistics for the given key: no invocations yet.
    pub fn new(name: &String) -> (r: OperationStats)
        ensures
            r.name@ == name@,
            r.n == 0,
            r.total_nanos == 0,
            r.total_size == 0,
    {
        OperationStats { name: name.clone(), n: 0, total_nanos: 0, total_size: 0, started: 0 }
    }

    /// Record the start of one invocation measured against content of the
    /// given length.
    pub fn start(&mut self, content_len: usize)
        ensures
            final(self).name == old(self).name,
            final(self).n == old(self).n,
            final(self).total_nanos == old(self).total_nanos,
            final(self).total_size as nat == sat64(old(self).total_size as nat + content_len as nat),
    {
        self.total_size = sat_add(self.total_size, content_len as u64);
        self.started = now_nanos();
    }

    /// Record the end of one invocation.
    pub fn stop(&mut self)
        ensures
            final(self).name == old(self).name,
            final(self).n as nat == sat64(old(self).n as nat + 1),
            final(self).total_nanos >= old(self).total_nanos,
            final(self).total_size == old(self).total_size,
    {
        let t = now_nanos();
        let elapsed = if t >= self.started {
            t - self.started
        } else {
            0
        };
        self.total_nanos = sat_add(self.total_nanos, elapsed);
        self.n = sat_add(self.n, 1);
    }
}

/// Whether some operation in `ops` carries the given key.
pub open spec fn spec_has_key(ops: Seq<OperationStats>, key: Seq<char>) -> bool {
    exists|i: int| 0 <= i < ops.len() && ops[i].name@ == key
}

/// The index of the operation with the given key.
pub open spec fn spec_key_index(ops: Seq<OperationStats>, key: Seq<char>) -> int {
    choose|i: int| 0 <= i < ops.len() && ops[i].name@ == key
}

/// A key present among operations whose names are pointwise preserved stays
/// present.
pub proof fn lemma_keys_preserved(
    pre: Seq<OperationStats>,
    post: Seq<OperationStats>,
    k: Seq<char>,
)
    requires
        spec_has_key(pre, k),
        post.len() >= pre.len(),
        forall|j: int| 0 <= j < pre.len() ==> post[j].name@ == pre[j].name@,
    ensures
        spec_has_key(post, k),
{
    let w = choose|w: int| 0 <= w < pre.len() && pre[w].name@ == k;
    assert(post[w].name@ == k);
}

/// One row of a statistics report: a declared operation and what was
/// recorded of it, or the marker that it never executed.
pub struct ReportRow {
    /// The `name(target)` key of the operation.
    pub key: String,
    /// Whether the operation was ever invoked; a false value is the
    /// "never executed" marker.
    pub executed: bool,
    /// How many invocations have completed.
    pub n: u64,
    /// Total nanoseconds across completed invocations.
    pub total_nanos: u64,
    /// Total content length across started invocations.
    pub total_size: u64,
}

/// Statistics of one stage: per-operation aggregates, the declared
/// operations in order, and the stage's total wall time.
pub struct RunStats {
    /// Aggregates of the operations invoked so far, with unique keys.
    pub operations: Vec<OperationStats>,
    /// The scorer names of the stage, in declared order.
    pub operation_order: Vec<String>,
    /// The scorer targets of the stage, in declared order.
    pub targets: Vec<String>,
    /// The name of the stage's loader.
    pub content_loader: String,
    /// Total wall time of the stage in nanoseconds.
    pub time: u64,
    /// The clock value when the stage started.
    pub started: u64,
}

impl RunStats {
    /// Keys are unique and every declared operation has a target.
    pub open spec fn wf(&self) -> bool {
        &&& forall|i: int, j: int|
            0 <= i < j < self.operations@.len() ==> self.operations@[i].name@
                != self.operations@[j].name@
        &&& self.operation_order@.len() == self.targets@.len()
    }

    /// Fresh statistics for one stage: its scorers in order, no invocations
    /// recorded yet.
    pub fn new(run: &Stage) -> (r: RunStats)
        ensures
            r.wf(),
            r.operations@.len() == 0,
            r.operation_order@.len() == run.scorers@.len(),
            forall|i: int|
                0 <= i < run.scorers@.len() ==> r.operation_order@[i]@ == spec_scorer_name(
                    run.scorers@[i].kind,
                ),
            r.targets@.len() == run.scorers@.len(),
            forall|i: int| 0 <= i < run.scorers@.len() ==> r.targets@[i]@ == run.scorers@[i].target@,
            r.content_loader@ == spec_loader_name(run.loader),
            r.time == 0,
    {
        let mut operation_order: Vec<String> = Vec::new();
        let mut targets: Vec<String> = Vec::new();
        let mut i: usize = 0;
        while i < run.scorers.len()
            invariant
                i <= run.scorers@.len(),
                operation_order@.len() == i,
                forall|j: int|
                    0 <= j < i ==> operation_order@[j]@ == spec_scorer_name(run.scorers@[j].kind),
                targets@.len() == i,
                forall|j: int| 0 <= j < i ==> targets@[j]@ == run.scorers@[j].target@,
            decreases run.scorers@.len() - i,
        {
            let sp = &run.scorers[i];
            operation_order.push(String::from_str(scorer_name(sp.kind)));
            targets.push(sp.target.clone());
            i = i + 1;
        }
        RunStats {
            operations: Vec::new(),
            operation_order,
            targets,
            content_loader: String::from_str(loader_name(&run.loader)),
            time: 0,
            started: now_nanos(),
        }
    }

    /// Find the position of the operation with the given key.
    fn find_operation(&self, key: &String) -> (r: Option<usize>)
        requires
            self.wf(),
        ensures
            match r {
                Some(i) => i < self.operations@.len() && self.operations@[i as int].name@ == key@,
                None => !spec_has_key(self.operations@, key@),
            },
    {
        let mut i: usize = 0;
        while i < self.operations.len()
            invariant
                i <= self.operations@.len(),
                forall|j: int| 0 <= j < i ==> self.operations@[j].name@ != key@,
            decreases self.operations@.len() - i,
        {
            if self.operations[i].name.eq(key) {
                return Some(i);
            }
            i = i + 1;
        }
        None
    }

    /// Record the start of one invocation of the keyed operation, measured
    /// against content of the given length. The first start of a key adds it
    /// to the recorded operations.
    pub fn start_operation(&mut self, operation: &String, content_len: usize)
        requires
            old(self).wf(),
        ensures
            final(self).wf(),
            final(self).operation_order == old(self).operation_order,
            final(self).targets == old(self).targets,
            final(self).content_loader == old(self).content_loader,
            final(self).time == old(self).time,
            spec_has_key(final(self).operations@, operation@),
            if spec_has_key(old(self).operations@, operation@) {
                let i = spec_key_index(old(self).operations@, operation@);
                &&& final(self).operations@.len() == old(self).operations@.len()
                &&& forall|j: int|
                    0 <= j < old(self).operations@.len() && j != i ==> final(self).operations@[j]
                        == old(self).operations@[j]
                &&& final(self).operations@[i].name == old(self).operations@[i].name
                &&& final(self).operations@[i].n == old(self).operations@[i].n
                &&& final(self).operations@[i].total_nanos == old(self).operations@[i].total_nanos
                &&& final(self).operations@[i].total_size as nat == sat64(
                    old(self).operations@[i].total_size as nat + content_len as nat,
                )
            } else {
                let m = old(self).operations@.len() as int;
                &&& final(self).operations@.len() == m + 1
                &&& forall|j: int| 0 <= j < m ==> final(self).operations@[j] == old(
                    self,
                ).operations@[j]
                &&& final(self).operations@[m].name@ == operation@
                &&& final(self).operations@[m].n == 0
                &&& final(self).operations@[m].total_nanos == 0
                &&& final(self).operations@[m].total_size as nat == sat64(content_len as nat)
            },
    {
        match self.find_operation(operation) {
            Some(i) => {
                proof {
                    assert(spec_has_key(self.operations@, operation@));
                    let k = spec_key_index(self.operations@, operation@);
                    assert(self.operations@[k].name@ == operation@);
                    assert(k == i as int);
                }
                let op = &mut self.operations[i];
                op.start(content_len);
            },
            None => {
                let mut op = OperationStats::new(operation);
                op.start(content_len);
                self.operations.push(op);
                proof {
                    let m = old(self).operations@.len() as int;
                    assert(self.operations@[m].name@ == operation@);
                    assert(spec_has_key(self.operations@, operation@));
                }
            },
        }
    }

    /// Record the end of one invocation of the keyed operation. A key that
    /// was never started is left untouched.
    pub fn stop_operation(&mut self, operation: &String)
        requires
            old(self).wf(),
        ensures
            final(self).wf(),
            final(self).operation_order == old(self).operation_order,
            final(self).targets == old(self).targets,
            final(self).content_loader == old(self).content_loader,
            final(self).time == old(self).time,
            if spec_has_key(old(self).operations@, operation@) {
                let i = spec_key_index(old(self).operations@, operation@);
                &&& final(self).operations@.len() == old(self).operations@.len()
                &&& forall|j: int|
                    0 <= j < old(self).operations@.len() && j != i ==> final(self).operations@[j]
                        == old(self).operations@[j]
                &&& final(self).operations@[i].name == old(self).operations@[i].name
                &&& final(self).operations@[i].n as nat == sat64(
                    old(self).operations@[i].n as nat + 1,
                )
                &&& final(self).operations@[i].total_nanos >= old(
                    self,
                ).operations@[i].total_nanos
                &&& final(self).operations@[i].total_size == old(self).operations@[i].total_size
            } else {
                *final(self) == *old(self)
            },
    {
        match self.find_operation(operation) {
            Some(i) => {
                proof {
                    assert(spec_has_key(self.operations@, operation@));
                    let k = spec_key_index(self.operations@, operation@);
                    assert(self.operations@[k].name@ == operation@);
                    assert(k == i as int);
                }
                let op = &mut self.operations[i];
                op.stop();
            },
            None => {},
        }
    }

    /// Whether `row` correctly reports operation `i` of this stage.
    pub open spec fn row_ok(&self, row: ReportRow, i: int) -> bool {
        let key = spec_key(self.operation_order@[i]@, self.targets@[i]@);
        let k = spec_key_index(self.operations@, key);
        &&& row.key@ == key
        &&& row.executed == spec_has_key(self.operations@, key)
        &&& row.executed ==> row.n == self.operations@[k].n
        &&& row.executed ==> row.total_nanos == self.operations@[k].total_nanos
        &&& row.executed ==> row.total_size == self.operations@[k].total_size
    }

    /// Add the elapsed wall time since the stage started to its total.
    pub fn stop_timer(&mut self)
        requires
            old(self).wf(),
        ensures
            final(self).wf(),
            final(self).operations == old(self).operations,
            final(self).operation_order == old(self).operation_order,
            final(self).targets == old(self).targets,
            final(self).content_loader == old(self).content_loader,
            final(self).time >= old(self).time,
    {
        let t = now_nanos();
        let elapsed = if t >= self.started {
            t - self.started
        } else {
            0
        };
        self.time = sat_add(self.time, elapsed);
    }

    /// One report row per declared operation, in declared order: its
    /// `name(target)` key and its aggregates, or the marker that it never
    /// executed.
    pub fn report(&self) -> (rows: Vec<ReportRow>)
        requires
            self.wf(),
        ensures
            rows@.len() == self.operation_order@.len(),
            forall|i: int| 0 <= i < rows@.len() ==> #[trigger] self.row_ok(rows@[i], i),
    {
        let mut rows: Vec<ReportRow> = Vec::new();
        let mut i: usize = 0;
        while i < self.operation_order.len()
            invariant
                self.wf(),
                i <= self.operation_order@.len(),
                rows@.len() == i,
                forall|j: int| 0 <= j < i ==> #[trigger] self.row_ok(rows@[j], j),
            decreases self.operation_order@.len() - i,
        {
            let key = create_key(&self.operation_order[i], &self.targets[i]);
            let row = match self.find_operation(&key) {
                Some(k) => {
                    proof {
                        assert(spec_has_key(self.operations@, key@));
                        let k2 = spec_key_index(self.operations@, key@);
                        assert(self.operations@[k2].name@ == key@);
                        assert(k2 == k as int);
                    }
                    let op = &self.operations[k];
                    ReportRow {
                        key,
                        executed: true,
                        n: op.n,
                        total_nanos: op.total_nanos,
                        total_size: op.total_size,
                    }
                },
                None => ReportRow { key, executed: false, n: 0, total_nanos: 0, total_size: 0 },
            };
            proof {
                assert(self.row_ok(row, i as int));
            }
            rows.push(row);
            i = i + 1;
        }
        rows
    }
}

/// Statistics of a whole pipeline execution: one entry per stage, in order.
pub struct AppStats {
    /// The per-stage statistics, in execution order.
    pub runs: Vec<RunStats>,
}

impl AppStats {
    /// Fresh, empty pipeline statistics.
    pub fn new() -> (r: AppStats)
        ensures
            r.runs@.len() == 0,
    {
        AppStats { runs: Vec::new() }
    }

    /// Append the statistics of one finished stage.
    pub fn push_run(&mut self, run_stats: RunStats)
        ensures
            final(self).runs@ == old(self).runs@.push(run_stats),
    {
        self.runs.push(run_stats);
    }
}

} // verus!
