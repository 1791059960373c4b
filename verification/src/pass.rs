//! One reconciliation pass: every namespace against every entry meant for it.
//!
//! A pass is a state machine. It names the cluster call that is due, the
//! caller makes the call and reports what came of it, and the pass names the
//! next one. Each pair of a namespace and an entry is reconciled by itself:
//! first the secret, then the binding of the workload identity, which is
//! touched only once the secret is known to be in place. However a pair ends,
//! the pass goes on to the next.

use crate::cluster::{
    classified, classify, ApiFailure, IdentityRead, IdentityReadView, IdentityWrite,
    IdentityWriteView, Outcome, SecretRead, SecretReadView, SecretWrite, SecretWriteView,
};
use crate::config::{Config, ConfigView};
use crate::text::texts;
use crate::worker::{
    bind_action, secret_action, BindAction, BindActionView, SecretAction, SecretActionView,
    SyncWorker,
};
use vstd::prelude::*;
use vstd::string::*;

verus! {

/// The views of a list of entries, in order.
pub open spec fn entry_views(entries: Seq<Config>) -> Seq<ConfigView> {
    Seq::new(entries.len(), |i: int| entries[i]@)
}

/// The pairs of namespace `n`, named `namespace`, with the entries meant for
/// it, in the order of the entries.
pub open spec fn matching(n: int, namespace: Seq<char>, entries: Seq<ConfigView>) -> Seq<
    (int, int),
>
    decreases entries.len(),
{
    if entries.len() == 0 {
        Seq::empty()
    } else {
        let before = matching(n, namespace, entries.drop_last());
        if entries.last().selects(namespace) {
            before.push((n, entries.len() - 1))
        } else {
            before
        }
    }
}

/// The pairs that a pass reconciles: for each namespace in order, the entries
/// meant for it in order. A pair is the index of the namespace and that of the
/// entry.
pub open spec fn planned(namespaces: Seq<Seq<char>>, entries: Seq<ConfigView>) -> Seq<(int, int)>
    decreases namespaces.len(),
{
    if namespaces.len() == 0 {
        Seq::empty()
    } else {
        planned(namespaces.drop_last(), entries) + matching(
            namespaces.len() - 1,
            namespaces.last(),
            entries,
        )
    }
}

/// A namespace is paired with exactly the entries meant for it.
pub proof fn lemma_matching_members(n: int, namespace: Seq<char>, entries: Seq<ConfigView>)
    ensures
        forall|p: (int, int)| #[trigger]
            matching(n, namespace, entries).contains(p) <==> (p.0 == n && 0 <= p.1 < entries.len()
                && entries[p.1].selects(namespace)),
    decreases entries.len(),
{
    if entries.len() > 0 {
        let before = matching(n, namespace, entries.drop_last());
        lemma_matching_members(n, namespace, entries.drop_last());
        assert forall|p: (int, int)| #[trigger]
            matching(n, namespace, entries).contains(p) <==> (p.0 == n && 0 <= p.1 < entries.len()
                && entries[p.1].selects(namespace)) by {
            let last = (n, entries.len() - 1);
            if entries.last().selects(namespace) {
                let all = before.push(last);
                assert(all.last() == last);
                if before.contains(p) {
                    let k = choose|k: int| 0 <= k < before.len() && before[k] == p;
                    assert(all[k] == p);
                }
                if p == last {
                    assert(all[all.len() - 1] == p);
                }
            }
            if 0 <= p.1 < entries.len() - 1 {
                assert(entries.drop_last()[p.1] == entries[p.1]);
            }
        }
    }
}

/// A pass reconciles a pair exactly where the entry is meant for the
/// namespace: no other pair is touched, and none that is meant is left out.
pub proof fn lemma_planned_members(namespaces: Seq<Seq<char>>, entries: Seq<ConfigView>)
    ensures
        forall|p: (int, int)| #[trigger]
            planned(namespaces, entries).contains(p) <==> (0 <= p.0 < namespaces.len() && 0 <= p.1
                < entries.len() && entries[p.1].selects(namespaces[p.0])),
    decreases namespaces.len(),
{
    if namespaces.len() > 0 {
        let before = planned(namespaces.drop_last(), entries);
        let here = matching(namespaces.len() - 1, namespaces.last(), entries);
        lemma_planned_members(namespaces.drop_last(), entries);
        lemma_matching_members(namespaces.len() - 1, namespaces.last(), entries);
        assert forall|p: (int, int)| #[trigger]
            planned(namespaces, entries).contains(p) <==> (0 <= p.0 < namespaces.len() && 0 <= p.1
                < entries.len() && entries[p.1].selects(namespaces[p.0])) by {
            let all = before + here;
            if before.contains(p) {
                let k = choose|k: int| 0 <= k < before.len() && before[k] == p;
                assert(all[k] == p);
                assert(namespaces.drop_last()[p.0] == namespaces[p.0]);
            }
            if here.contains(p) {
                let k = choose|k: int| 0 <= k < here.len() && here[k] == p;
                assert(all[before.len() + k] == p);
            }
            if all.contains(p) {
                let k = choose|k: int| 0 <= k < all.len() && all[k] == p;
                if k < before.len() {
                    assert(before[k] == p);
                } else {
                    assert(here[k - before.len()] == p);
                }
            }
            if 0 <= p.0 < namespaces.len() - 1 {
                assert(namespaces.drop_last()[p.0] == namespaces[p.0]);
            }
        }
    }
}

/// The pairs of a plan as pairs of integers.
pub open spec fn pair_views(plan: Seq<(usize, usize)>) -> Seq<(int, int)> {
    Seq::new(plan.len(), |k: int| (plan[k].0 as int, plan[k].1 as int))
}

/// Lists the pairs that a pass reconciles.
pub fn plan(namespaces: &Vec<String>, entries: &Vec<Config>) -> (pairs: Vec<(usize, usize)>)
    ensures
        pair_views(pairs@) == planned(texts(namespaces@), entry_views(entries@)),
{
    let ghost names = texts(namespaces@);
    let ghost views = entry_views(entries@);
    let mut pairs: Vec<(usize, usize)> = Vec::new();
    let mut i: usize = 0;
    proof {
        assert(names.take(0) =~= Seq::<Seq<char>>::empty());
        assert(pair_views(pairs@) =~= planned(names.take(0), views));
    }
    while i < namespaces.len()
        invariant
            i <= namespaces.len(),
            names == texts(namespaces@),
            views == entry_views(entries@),
            pair_views(pairs@) == planned(names.take(i as int), views),
        decreases namespaces.len() - i,
    {
        let ghost before = pair_views(pairs@);
        let mut j: usize = 0;
        proof {
            assert(views.take(0) =~= Seq::<ConfigView>::empty());
            assert(before + matching(i as int, names[i as int], views.take(0)) =~= before);
        }
        while j < entries.len()
            invariant
                i < namespaces.len(),
                j <= entries.len(),
                names == texts(namespaces@),
                views == entry_views(entries@),
                pair_views(pairs@) == before + matching(
                    i as int,
                    names[i as int],
                    views.take(j as int),
                ),
            decreases entries.len() - j,
        {
            let ghost so_far = matching(i as int, names[i as int], views.take(j as int));
            proof {
                let now = views.take(j as int + 1);
                assert(now.drop_last() =~= views.take(j as int));
                assert(now.last() == entries@[j as int]@);
                assert(names[i as int] == namespaces@[i as int]@);
            }
            if entries[j].selects(namespaces[i].as_str()) {
                let ghost prev = pairs@;
                pairs.push((i, j));
                proof {
                    assert(pair_views(pairs@) =~= pair_views(prev).push((i as int, j as int)));
                    assert((before + so_far).push((i as int, j as int)) =~= before + so_far.push(
                        (i as int, j as int),
                    ));
                }
            }
            j = j + 1;
        }
        proof {
            assert(views.take(j as int) =~= views);
            let now = names.take(i as int + 1);
            assert(now.drop_last() =~= names.take(i as int));
            assert(now.last() == names[i as int]);
        }
        i = i + 1;
    }
    proof {
        assert(names.take(i as int) =~= names);
    }
    pairs
}

/// The cluster call that is due.
#[derive(Debug)]
pub enum Step {
    /// Read the secret `name` in `namespace`.
    ReadSecret { namespace: String, name: String },
    /// Create this secret.
    CreateSecret(SecretWrite),
    /// Patch the blob of this secret.
    PatchSecret(SecretWrite),
    /// Read the workload identity `name` in `namespace`.
    ReadIdentity { namespace: String, name: String },
    /// Patch the references of this workload identity.
    PatchIdentity(IdentityWrite),
    /// No call is due: the pass is over.
    Finished,
}

/// The cluster call that is due, as plain sequences.
pub enum StepView {
    ReadSecret { namespace: Seq<char>, name: Seq<char> },
    CreateSecret(SecretWriteView),
    PatchSecret(SecretWriteView),
    ReadIdentity { namespace: Seq<char>, name: Seq<char> },
    PatchIdentity(IdentityWriteView),
    Finished,
}

impl View for Step {
    type V = StepView;

    open spec fn view(&self) -> StepView {
        match *self {
            Step::ReadSecret { namespace, name } => StepView::ReadSecret {
                namespace: namespace@,
                name: name@,
            },
            Step::CreateSecret(write) => StepView::CreateSecret(write@),
            Step::PatchSecret(write) => StepView::PatchSecret(write@),
            Step::ReadIdentity { namespace, name } => StepView::ReadIdentity {
                namespace: namespace@,
                name: name@,
            },
            Step::PatchIdentity(write) => StepView::PatchIdentity(write@),
            Step::Finished => StepView::Finished,
        }
    }
}

/// What came of a cluster call.
#[derive(Debug)]
pub enum Observation {
    /// What reading a secret gave.
    Secret(SecretRead),
    /// What reading a workload identity gave.
    Identity(IdentityRead),
    /// Whether a create or a patch went through.
    Written(Result<(), ApiFailure>),
}

/// What came of a cluster call, as plain sequences.
pub enum ObservationView {
    Secret(SecretReadView),
    Identity(IdentityReadView),
    Written(Result<(), ApiFailure>),
}

impl View for Observation {
    type V = ObservationView;

    open spec fn view(&self) -> ObservationView {
        match *self {
            Observation::Secret(read) => ObservationView::Secret(read@),
            Observation::Identity(read) => ObservationView::Identity(read@),
            Observation::Written(result) => ObservationView::Written(result),
        }
    }
}

/// Which answer the pass waits for, of the pair in progress.
#[derive(Debug, Clone, Copy, PartialEq, Eq, Structural)]
pub enum Phase {
    /// What reading the secret gave.
    SecretRead,
    /// Whether the secret was written.
    SecretWrite,
    /// What reading the workload identity gave.
    IdentityRead,
    /// Whether the workload identity was patched.
    IdentityWrite,
}

/// The state of a pass, as plain values.
pub struct PassView {
    /// The name of the workload identity that is bound in each namespace.
    pub identity: Seq<char>,
    /// The active namespaces.
    pub namespaces: Seq<Seq<char>>,
    /// The entries of the configuration.
    pub entries: Seq<ConfigView>,
    /// How many pairs of the plan are settled.
    pub cursor: int,
    /// Which answer is waited for.
    pub phase: Phase,
    /// How the settled pairs ended, in the order of the plan.
    pub report: Seq<Outcome>,
}

impl PassView {
    /// The pairs that the pass reconciles, in order.
    pub open spec fn plan(self) -> Seq<(int, int)> {
        planned(self.namespaces, self.entries)
    }

    /// The settled pairs are a prefix of the plan, and the report holds one
    /// outcome for each of them.
    pub open spec fn wf(self) -> bool {
        0 <= self.cursor <= self.plan().len() && self.report.len() == self.cursor
    }

    /// Whether every pair is settled.
    pub open spec fn done(self) -> bool {
        self.cursor >= self.plan().len()
    }

    /// The namespace of the pair in progress.
    pub open spec fn namespace(self) -> Seq<char> {
        self.namespaces[self.plan()[self.cursor].0]
    }

    /// The entry of the pair in progress.
    pub open spec fn entry(self) -> ConfigView {
        self.entries[self.plan()[self.cursor].1]
    }

    /// The same pass, waiting for another answer.
    pub open spec fn at(self, phase: Phase) -> PassView {
        PassView { phase, ..self }
    }

    /// The call that opens the pair in progress: reading its secret. Where no
    /// pair is left, the pass is over.
    pub open spec fn opening(self) -> StepView {
        if self.done() {
            StepView::Finished
        } else {
            StepView::ReadSecret { namespace: self.namespace(), name: self.entry().server }
        }
    }

    /// The call that turns to the workload identity of the pair in progress.
    pub open spec fn binding(self) -> StepView {
        StepView::ReadIdentity { namespace: self.namespace(), name: self.identity }
    }

    /// The pass once the pair in progress has ended with `outcome`: the
    /// outcome is reported and the next pair, if any, is opened.
    pub open spec fn settle(self, outcome: Outcome) -> (PassView, StepView) {
        let after = PassView {
            cursor: self.cursor + 1,
            phase: Phase::SecretRead,
            report: self.report.push(outcome),
            ..self
        };
        (after, after.opening())
    }

    /// The pass with the pair in progress opened anew.
    pub open spec fn restart(self) -> (PassView, StepView) {
        (self.at(Phase::SecretRead), self.opening())
    }

    /// The pass after the answer `seen`, and the call that is due then.
    ///
    /// The secret comes first. The workload identity is read only once the
    /// secret is found up to date or its write went through, and a pair that
    /// fails is reported and left. An answer of another kind than the one
    /// waited for opens the pair anew.
    pub open spec fn next(self, seen: ObservationView) -> (PassView, StepView) {
        if self.done() {
            (self, StepView::Finished)
        } else {
            match self.phase {
                Phase::SecretRead => match seen {
                    ObservationView::Secret(read) => match secret_action(
                        self.namespace(),
                        self.entry(),
                        read,
                    ) {
                        SecretActionView::Skip => self.settle(Outcome::Skipped),
                        SecretActionView::Keep => (self.at(Phase::IdentityRead), self.binding()),
                        SecretActionView::Patch(write) => (
                            self.at(Phase::SecretWrite),
                            StepView::PatchSecret(write),
                        ),
                        SecretActionView::Create(write) => (
                            self.at(Phase::SecretWrite),
                            StepView::CreateSecret(write),
                        ),
                        SecretActionView::Fail(error) => self.settle(Outcome::Failed(error)),
                    },
                    _ => self.restart(),
                },
                Phase::SecretWrite => match seen {
                    ObservationView::Written(Ok(_)) => (
                        self.at(Phase::IdentityRead),
                        self.binding(),
                    ),
                    ObservationView::Written(Err(failure)) => self.settle(
                        Outcome::Failed(classified(failure)),
                    ),
                    _ => self.restart(),
                },
                Phase::IdentityRead => match seen {
                    ObservationView::Identity(read) => match bind_action(
                        self.identity,
                        self.namespace(),
                        self.entry().server,
                        read,
                    ) {
                        BindActionView::Keep => self.settle(Outcome::Synced),
                        BindActionView::Patch(write) => (
                            self.at(Phase::IdentityWrite),
                            StepView::PatchIdentity(write),
                        ),
                        BindActionView::Fail(error) => self.settle(Outcome::Failed(error)),
                    },
                    _ => self.restart(),
                },
                Phase::IdentityWrite => match seen {
                    ObservationView::Written(Ok(_)) => self.settle(Outcome::Synced),
                    ObservationView::Written(Err(failure)) => self.settle(
                        Outcome::Failed(classified(failure)),
                    ),
                    _ => self.restart(),
                },
            }
        }
    }
}

/// How one pair ended.
#[derive(Debug)]
pub struct PairReport {
    /// The namespace of the pair.
    pub namespace: String,
    /// The endpoint of the pair's entry, which is the name of its secret.
    pub server: String,
    /// How the pair ended.
    pub outcome: Outcome,
}

/// How one pair ended, as plain values.
pub struct PairReportView {
    pub namespace: Seq<char>,
    pub server: Seq<char>,
    pub outcome: Outcome,
}

impl View for PairReport {
    type V = PairReportView;

    open spec fn view(&self) -> PairReportView {
        PairReportView { namespace: self.namespace@, server: self.server@, outcome: self.outcome }
    }
}

/// The views of a list of reports, in order.
pub open spec fn report_views(list: Seq<PairReport>) -> Seq<PairReportView> {
    Seq::new(list.len(), |k: int| list[k]@)
}

impl PassView {
    /// The settled pairs with their outcomes, in the order of the plan.
    pub open spec fn reported(self) -> Seq<PairReportView> {
        Seq::new(
            self.cursor as nat,
            |k: int|
                PairReportView {
                    namespace: self.namespaces[self.plan()[k].0],
                    server: self.entries[self.plan()[k].1].server,
                    outcome: self.report[k],
                },
        )
    }
}

/// A reconciliation pass in progress.
pub struct Pass {
    worker: SyncWorker,
    namespaces: Vec<String>,
    entries: Vec<Config>,
    pairs: Vec<(usize, usize)>,
    cursor: usize,
    phase: Phase,
    report: Vec<Outcome>,
}

impl View for Pass {
    type V = PassView;

    closed spec fn view(&self) -> PassView {
        PassView {
            identity: self.worker@.sa_name,
            namespaces: texts(self.namespaces@),
            entries: entry_views(self.entries@),
            cursor: self.cursor as int,
            phase: self.phase,
            report: self.report@,
        }
    }
}

impl SyncWorker {
    /// Begins a pass over the active namespaces `all_ns` and the entries
    /// `configs`. No pair is settled yet.
    pub fn ensure(&self, all_ns: Vec<String>, configs: Vec<Config>) -> (pass: Pass)
        ensures
            pass.wf(),
            pass@ == (PassView {
                identity: self@.sa_name,
                namespaces: texts(all_ns@),
                entries: entry_views(configs@),
                cursor: 0,
                phase: Phase::SecretRead,
                report: Seq::empty(),
            }),
    {
        let pairs = plan(&all_ns, &configs);
        Pass {
            worker: self.duplicate(),
            namespaces: all_ns,
            entries: configs,
            pairs,
            cursor: 0,
            phase: Phase::SecretRead,
            report: Vec::new(),
        }
    }
}

impl Pass {
    /// The pass keeps the plan of its namespaces and entries, and its state is
    /// well formed.
    pub closed spec fn wf(&self) -> bool {
        &&& pair_views(self.pairs@) == self@.plan()
        &&& self@.wf()
    }

    /// A pass that keeps its plan has a well-formed state.
    pub proof fn lemma_wf(&self)
        requires
            self.wf(),
        ensures
            self@.wf(),
    {
    }

    fn pair_at(&self, k: usize) -> (pair: (usize, usize))
        requires
            self.wf(),
            k < self@.plan().len(),
        ensures
            (pair.0 as int, pair.1 as int) == self@.plan()[k as int],
            pair.0 < self.namespaces.len(),
            pair.1 < self.entries.len(),
            self.namespaces@[pair.0 as int]@ == self@.namespaces[self@.plan()[k as int].0],
            self.entries@[pair.1 as int]@ == self@.entries[self@.plan()[k as int].1],
    {
        proof {
            assert(pair_views(self.pairs@).len() == self.pairs@.len());
        }
        let pair = self.pairs[k];
        proof {
            let plan = self@.plan();
            lemma_planned_members(self@.namespaces, self@.entries);
            assert(pair_views(self.pairs@)[k as int] == (pair.0 as int, pair.1 as int));
            assert(plan.contains(plan[k as int]));
        }
        pair
    }

    fn current(&self) -> (pair: (usize, usize))
        requires
            self.wf(),
            !self@.done(),
        ensures
            (pair.0 as int, pair.1 as int) == self@.plan()[self@.cursor],
            pair.0 < self.namespaces.len(),
            pair.1 < self.entries.len(),
            self.namespaces@[pair.0 as int]@ == self@.namespace(),
            self.entries@[pair.1 as int]@ == self@.entry(),
    {
        self.pair_at(self.cursor)
    }

    fn opening(&self) -> (step: Step)
        requires
            self.wf(),
        ensures
            step@ == self@.opening(),
    {
        if self.cursor >= self.pairs.len() {
            Step::Finished
        } else {
            let (i, j) = self.current();
            Step::ReadSecret {
                namespace: self.namespaces[i].clone(),
                name: String::from_str(self.entries[j].server()),
            }
        }
    }

    fn binding(&self) -> (step: Step)
        requires
            self.wf(),
            !self@.done(),
        ensures
            step@ == self@.binding(),
    {
        let (i, _j) = self.current();
        Step::ReadIdentity {
            namespace: self.namespaces[i].clone(),
            name: String::from_str(self.worker.sa_name()),
        }
    }

    fn settle(&mut self, outcome: Outcome) -> (step: Step)
        requires
            old(self).wf(),
            !old(self)@.done(),
        ensures
            final(self).wf(),
            (final(self)@, step@) == old(self)@.settle(outcome),
    {
        let total = self.pairs.len();
        proof {
            assert(pair_views(self.pairs@).len() == total);
            assert(self.cursor < total);
        }
        self.report.push(outcome);
        self.cursor = self.cursor + 1;
        self.phase = Phase::SecretRead;
        self.opening()
    }

    /// Whether every pair is settled.
    pub fn is_finished(&self) -> (r: bool)
        requires
            self.wf(),
        ensures
            r == self@.done(),
    {
        self.cursor >= self.pairs.len()
    }

    /// How the settled pairs ended, in the order of the plan.
    pub fn outcomes(&self) -> (report: Vec<Outcome>)
        ensures
            report@ == self@.report,
    {
        let mut out: Vec<Outcome> = Vec::new();
        let mut k: usize = 0;
        while k < self.report.len()
            invariant
                k <= self.report.len(),
                out@ == self.report@.take(k as int),
            decreases self.report.len() - k,
        {
            out.push(self.report[k]);
            assert(out@ =~= self.report@.take(k as int + 1));
            k = k + 1;
        }
        assert(out@ =~= self.report@);
        out
    }

    /// The settled pairs with their outcomes, in the order of the plan.
    pub fn report(&self) -> (list: Vec<PairReport>)
        requires
            self.wf(),
        ensures
            report_views(list@) == self@.reported(),
    {
        let mut out: Vec<PairReport> = Vec::new();
        let mut k: usize = 0;
        while k < self.cursor
            invariant
                self.wf(),
                k <= self.cursor,
                out.len() == k,
                forall|m: int| 0 <= m < k ==> (#[trigger] out@[m])@ == self@.reported()[m],
            decreases self.cursor - k,
        {
            let (i, j) = self.pair_at(k);
            out.push(
                PairReport {
                    namespace: self.namespaces[i].clone(),
                    server: String::from_str(self.entries[j].server()),
                    outcome: self.report[k],
                },
            );
            k = k + 1;
        }
        assert(report_views(out@) =~= self@.reported());
        out
    }

    /// The call that opens the pair in progress, whatever answer the pass was
    /// waiting for. This is how a pass begins.
    pub fn resume(&mut self) -> (step: Step)
        requires
            old(self).wf(),
        ensures
            final(self).wf(),
            (final(self)@, step@) == old(self)@.restart(),
    {
        self.phase = Phase::SecretRead;
        self.opening()
    }

    /// Takes the answer to the call that was due and names the next one.
    pub fn advance(&mut self, seen: Observation) -> (step: Step)
        requires
            old(self).wf(),
        ensures
            final(self).wf(),
            (final(self)@, step@) == old(self)@.next(seen@),
    {
        if self.cursor >= self.pairs.len() {
            return Step::Finished;
        }
        let (i, j) = self.current();
        match self.phase {
            Phase::SecretRead => match seen {
                Observation::Secret(read) => {
                    let action = self.worker.ensure_registry_secret(
                        self.namespaces[i].as_str(),
                        &self.entries[j],
                        read,
                    );
                    match action {
                        SecretAction::Skip => self.settle(Outcome::Skipped),
                        SecretAction::Keep => {
                            self.phase = Phase::IdentityRead;
                            self.binding()
                        },
                        SecretAction::Patch(write) => {
                            self.phase = Phase::SecretWrite;
                            Step::PatchSecret(write)
                        },
                        SecretAction::Create(write) => {
                            self.phase = Phase::SecretWrite;
                            Step::CreateSecret(write)
                        },
                        SecretAction::Fail(error) => self.settle(Outcome::Failed(error)),
                    }
                },
                _ => self.resume(),
            },
            Phase::SecretWrite => match seen {
                Observation::Written(Ok(_)) => {
                    self.phase = Phase::IdentityRead;
                    self.binding()
                },
                Observation::Written(Err(failure)) => self.settle(
                    Outcome::Failed(classify(failure)),
                ),
                _ => self.resume(),
            },
            Phase::IdentityRead => match seen {
                Observation::Identity(read) => {
                    let action = self.worker.ensure_patch_sa(
                        self.namespaces[i].as_str(),
                        self.entries[j].server(),
                        read,
                    );
                    match action {
                        BindAction::Keep => self.settle(Outcome::Synced),
                        BindAction::Patch(write) => {
                            self.phase = Phase::IdentityWrite;
                            Step::PatchIdentity(write)
                        },
                        BindAction::Fail(error) => self.settle(Outcome::Failed(error)),
                    }
                },
                _ => self.resume(),
            },
            Phase::IdentityWrite => match seen {
                Observation::Written(Ok(_)) => self.settle(Outcome::Synced),
                Observation::Written(Err(failure)) => self.settle(
                    Outcome::Failed(classify(failure)),
                ),
                _ => self.resume(),
            },
        }
    }
}

} // verus!
