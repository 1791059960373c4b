//! What a whole pass does to a cluster that answers faithfully.
//!
//! Three laws. A pass, driven call by call, does to the cluster what
//! reconciling its pairs one after another does. After a pass every pair has
//! its secret in place and its workload identity bound, where the identities
//! exist and no two entries share an endpoint. And a pass over a cluster
//! where all is in place changes nothing.

use crate::cluster::{Outcome, SecretReadView};
use crate::config::ConfigView;
use crate::model::Cluster;
use crate::pass::{lemma_planned_members, PassView, Phase, StepView};
use crate::worker::{bind_action, bound, entry_blob, secret_action, BindActionView};
use vstd::prelude::*;

verus! {

/// The cluster after one pair is reconciled, and how the pair ended: the
/// secret is dealt with first, then the workload identity.
pub open spec fn pair_result(
    cluster: Cluster,
    identity: Seq<char>,
    namespace: Seq<char>,
    cfg: ConfigView,
) -> (Cluster, Outcome) {
    let with_secret = cluster.after_secret(
        secret_action(namespace, cfg, cluster.read_secret(namespace, cfg.server)),
    );
    let binding = bind_action(
        identity,
        namespace,
        cfg.server,
        with_secret.read_identity(namespace, identity),
    );
    match binding {
        BindActionView::Fail(error) => (with_secret, Outcome::Failed(error)),
        _ => (with_secret.after_binding(binding), Outcome::Synced),
    }
}

/// The namespace of pair `k` of a pass.
pub open spec fn pair_namespace(pass: PassView, k: int) -> Seq<char> {
    pass.namespaces[pass.plan()[k].0]
}

/// The entry of pair `k` of a pass.
pub open spec fn pair_entry(pass: PassView, k: int) -> ConfigView {
    pass.entries[pass.plan()[k].1]
}

/// The cluster after the pairs from `from` on are reconciled one after
/// another, and how they ended.
pub open spec fn settle_from(pass: PassView, cluster: Cluster, from: int) -> (Cluster, Seq<Outcome>)
    decreases pass.plan().len() - from,
{
    if from < 0 || from >= pass.plan().len() {
        (cluster, Seq::empty())
    } else {
        let (next, outcome) = pair_result(
            cluster,
            pass.identity,
            pair_namespace(pass, from),
            pair_entry(pass, from),
        );
        let (last, rest) = settle_from(pass, next, from + 1);
        (last, seq![outcome] + rest)
    }
}

/// The pass and the cluster after the call `step` is made and answered, and
/// the call that is due then.
pub open spec fn exchange(pass: PassView, cluster: Cluster, step: StepView) -> (
    PassView,
    Cluster,
    StepView,
) {
    let (after, seen) = cluster.answer(step);
    let (next, due) = pass.next(seen);
    (next, after, due)
}

/// The pass and the cluster after up to `fuel` calls, beginning with `step`,
/// are made and answered in turn.
pub open spec fn run(pass: PassView, cluster: Cluster, step: StepView, fuel: nat) -> (
    PassView,
    Cluster,
)
    decreases fuel,
{
    if fuel == 0 || step is Finished {
        (pass, cluster)
    } else {
        let (next, after, due) = exchange(pass, cluster, step);
        run(next, after, due, (fuel - 1) as nat)
    }
}

/// Reconciling the pair in progress takes at most four calls, and leaves the
/// pass and the cluster as the pair's result says.
proof fn lemma_pair_runs(pass: PassView, cluster: Cluster, fuel: nat)
    requires
        pass.wf(),
        !pass.done(),
        pass.phase == Phase::SecretRead,
        fuel >= 4,
    ensures
        ({
            let (after, outcome) = pair_result(
                cluster,
                pass.identity,
                pass.namespace(),
                pass.entry(),
            );
            let (settled, due) = pass.settle(outcome);
            exists|left: nat|
                fuel - 4 <= left < fuel && run(pass, cluster, pass.opening(), fuel) == #[trigger] run(
                    settled,
                    after,
                    due,
                    left,
                )
        }),
{
    let namespace = pass.namespace();
    let cfg = pass.entry();
    lemma_planned_members(pass.namespaces, pass.entries);
    assert(pass.plan().contains(pass.plan()[pass.cursor]));
    assert(cfg.selects(namespace));
    let (after, outcome) = pair_result(cluster, pass.identity, namespace, cfg);
    let (settled, due) = pass.settle(outcome);

    let first = pass.opening();
    let (read_pass, read_cluster, read_due) = exchange(pass, cluster, first);
    assert(run(pass, cluster, first, fuel) == run(read_pass, read_cluster, read_due, (fuel - 1) as nat));
    let action = secret_action(namespace, cfg, cluster.read_secret(namespace, cfg.server));
    let with_secret = cluster.after_secret(action);
    // the secret: in place after one call, or after a write as well
    let (kept_pass, kept_cluster, kept_due, spent) = if action is Keep {
        (read_pass, read_cluster, read_due, 1nat)
    } else {
        let (next, after, due) = exchange(read_pass, read_cluster, read_due);
        assert(run(read_pass, read_cluster, read_due, (fuel - 1) as nat) == run(
            next,
            after,
            due,
            (fuel - 2) as nat,
        ));
        (next, after, due, 2nat)
    };
    assert(kept_cluster == with_secret);
    assert(kept_pass == pass.at(Phase::IdentityRead));
    assert(kept_due == pass.binding());
    assert(kept_pass.namespace() == namespace && kept_pass.entry() == cfg);
    // the workload identity: read, and patched where the secret is not referred to
    let (seen_pass, seen_cluster, seen_due) = exchange(kept_pass, kept_cluster, kept_due);
    assert(run(kept_pass, kept_cluster, kept_due, (fuel - spent) as nat) == run(seen_pass, seen_cluster, seen_due, (fuel - spent - 1) as nat));
    let binding = bind_action(
        pass.identity,
        namespace,
        cfg.server,
        with_secret.read_identity(namespace, pass.identity),
    );
    if binding is Patch {
        let (bound_pass, bound_cluster, bound_due) = exchange(seen_pass, seen_cluster, seen_due);
        assert(seen_pass.namespace() == namespace && seen_pass.entry() == cfg);
        assert(run(seen_pass, seen_cluster, seen_due, (fuel - spent - 1) as nat) == run(
            bound_pass,
            bound_cluster,
            bound_due,
            (fuel - spent - 2) as nat,
        ));
        assert(bound_pass == settled && bound_cluster == after && bound_due == due);
        assert(run(pass, cluster, first, fuel) == run(
            settled,
            after,
            due,
            (fuel - (spent + 2)) as nat,
        ));
    } else {
        assert(seen_pass == settled && seen_cluster == after && seen_due == due);
        assert(run(pass, cluster, first, fuel) == run(
            settled,
            after,
            due,
            (fuel - (spent + 1)) as nat,
        ));
    }
}

/// A pass that is given four calls for each pair that is left ends with
/// every pair settled, and does to the cluster what reconciling the pairs
/// one after another does: the cluster is the same and the report holds the
/// same outcomes, in order.
pub proof fn lemma_pass_runs_every_pair(pass: PassView, cluster: Cluster, fuel: nat)
    requires
        pass.wf(),
        pass.phase == Phase::SecretRead,
        fuel >= 4 * (pass.plan().len() - pass.cursor),
    ensures
        ({
            let (end, after) = run(pass, cluster, pass.opening(), fuel);
            let (expected, outcomes) = settle_from(pass, cluster, pass.cursor);
            &&& end.done()
            &&& end.wf()
            &&& end.report == pass.report + outcomes
            &&& after == expected
        }),
    decreases pass.plan().len() - pass.cursor,
{
    if pass.done() {
        assert(pass.report + Seq::<Outcome>::empty() =~= pass.report);
    } else {
        lemma_pair_runs(pass, cluster, fuel);
        let (next, outcome) = pair_result(cluster, pass.identity, pass.namespace(), pass.entry());
        let (settled, due) = pass.settle(outcome);
        let left = choose|left: nat|
            fuel - 4 <= left < fuel && run(pass, cluster, pass.opening(), fuel) == #[trigger] run(
                settled,
                next,
                due,
                left,
            );
        assert(settled.plan() == pass.plan());
        lemma_pass_runs_every_pair(settled, next, left);
        let (last, rest) = settle_from(pass, next, pass.cursor + 1);
        lemma_settle_from_same_plan(pass, settled, next, pass.cursor + 1);
        assert(pass.report.push(outcome) + rest =~= pass.report + (seq![outcome] + rest));
    }
}

/// Reconciling the pairs goes by the plan, the namespaces, the entries and
/// the identity's name alone.
proof fn lemma_settle_from_same_plan(one: PassView, other: PassView, cluster: Cluster, from: int)
    requires
        one.namespaces == other.namespaces,
        one.entries == other.entries,
        one.identity == other.identity,
    ensures
        settle_from(one, cluster, from) == settle_from(other, cluster, from),
    decreases one.plan().len() - from,
{
    if 0 <= from < one.plan().len() {
        let (next, outcome) = pair_result(
            cluster,
            one.identity,
            pair_namespace(one, from),
            pair_entry(one, from),
        );
        lemma_settle_from_same_plan(one, other, next, from + 1);
    }
}

/// Whether pair `k` of a pass is in place in a cluster: its secret stores
/// the entry's blob, and the workload identity of its namespace refers to
/// the secret.
pub open spec fn in_place(pass: PassView, cluster: Cluster, k: int) -> bool {
    let namespace = pair_namespace(pass, k);
    let cfg = pair_entry(pass, k);
    &&& cluster.read_secret(namespace, cfg.server) == SecretReadView::Found(Some(entry_blob(cfg)))
    &&& cluster.identities.contains_key((namespace, pass.identity))
    &&& cluster.identities[(namespace, pass.identity)].contains(cfg.server)
}

/// Whether every namespace of a pass has the workload identity.
pub open spec fn identities_exist(pass: PassView, cluster: Cluster) -> bool {
    forall|n: int|
        0 <= n < pass.namespaces.len() ==> cluster.identities.contains_key(
            (#[trigger] pass.namespaces[n], pass.identity),
        )
}

/// Whether no two entries share an endpoint.
pub open spec fn endpoints_differ(entries: Seq<ConfigView>) -> bool {
    forall|i: int, j: int|
        0 <= i < entries.len() && 0 <= j < entries.len() && (#[trigger] entries[i]).server == (
        #[trigger] entries[j]).server ==> i == j
}

/// Reconciling one pair puts it in place, keeps in place what was, and
/// removes no workload identity.
proof fn lemma_pair_result_keeps(pass: PassView, cluster: Cluster, j: int)
    requires
        0 <= j < pass.plan().len(),
        endpoints_differ(pass.entries),
        identities_exist(pass, cluster),
    ensures
        ({
            let (after, outcome) = pair_result(
                cluster,
                pass.identity,
                pair_namespace(pass, j),
                pair_entry(pass, j),
            );
            &&& outcome == Outcome::Synced
            &&& in_place(pass, after, j)
            &&& identities_exist(pass, after)
            &&& forall|k: int|
                0 <= k < pass.plan().len() && in_place(pass, cluster, k) ==> in_place(
                    pass,
                    after,
                    k,
                )
        }),
{
    let namespace = pair_namespace(pass, j);
    let cfg = pair_entry(pass, j);
    lemma_planned_members(pass.namespaces, pass.entries);
    assert(pass.plan().contains(pass.plan()[j]));
    let action = secret_action(namespace, cfg, cluster.read_secret(namespace, cfg.server));
    let with_secret = cluster.after_secret(action);
    let refs = with_secret.identities[(namespace, pass.identity)];
    let binding = bind_action(
        pass.identity,
        namespace,
        cfg.server,
        with_secret.read_identity(namespace, pass.identity),
    );
    let (after, outcome) = pair_result(cluster, pass.identity, namespace, cfg);
    assert(with_secret.identities == cluster.identities);
    assert(cluster.identities.contains_key((pass.namespaces[pass.plan()[j].0], pass.identity)));
    crate::model::lemma_binding_keeps_references(refs, cfg.server);
    assert(after.identities[(namespace, pass.identity)] == bound(refs, cfg.server));
    assert forall|k: int| 0 <= k < pass.plan().len() && in_place(pass, cluster, k) implies in_place(
        pass,
        after,
        k,
    ) by {
        assert(pass.plan().contains(pass.plan()[k]));
        let other = pair_entry(pass, k);
        if pair_namespace(pass, k) == namespace {
            if other.server == cfg.server {
                assert(pass.plan()[k].1 == pass.plan()[j].1);
            }
            let before = cluster.identities[(namespace, pass.identity)];
            assert(before.contains(other.server));
            assert(bound(refs, cfg.server).contains(other.server));
        }
    }
    assert forall|n: int| 0 <= n < pass.namespaces.len() implies after.identities.contains_key(
        (#[trigger] pass.namespaces[n], pass.identity),
    ) by {
        assert(cluster.identities.contains_key((pass.namespaces[n], pass.identity)));
    }
}

/// A pass puts everything in place. Where every namespace has the workload
/// identity and no two entries share an endpoint, reconciling the pairs one
/// after another ends each of them in success, and afterwards every pair is
/// in place: its secret stores the entry's blob and the identity of its
/// namespace refers to it.
pub proof fn lemma_pass_converges(pass: PassView, cluster: Cluster, from: int)
    requires
        0 <= from <= pass.plan().len(),
        endpoints_differ(pass.entries),
        identities_exist(pass, cluster),
        forall|k: int| 0 <= k < from ==> in_place(pass, cluster, k),
    ensures
        ({
            let (after, outcomes) = settle_from(pass, cluster, from);
            &&& outcomes.len() == pass.plan().len() - from
            &&& forall|i: int| 0 <= i < outcomes.len() ==> outcomes[i] == Outcome::Synced
            &&& forall|k: int| 0 <= k < pass.plan().len() ==> in_place(pass, after, k)
            &&& identities_exist(pass, after)
        }),
    decreases pass.plan().len() - from,
{
    if from < pass.plan().len() {
        lemma_pair_result_keeps(pass, cluster, from);
        let (next, outcome) = pair_result(
            cluster,
            pass.identity,
            pair_namespace(pass, from),
            pair_entry(pass, from),
        );
        lemma_pass_converges(pass, next, from + 1);
    }
}

/// A pass over a cluster where every pair is in place changes nothing: no
/// secret and no workload identity is touched, and every pair ends in
/// success.
pub proof fn lemma_settled_pass_is_quiet(pass: PassView, cluster: Cluster, from: int)
    requires
        0 <= from <= pass.plan().len(),
        forall|k: int| 0 <= k < pass.plan().len() ==> in_place(pass, cluster, k),
    ensures
        ({
            let (after, outcomes) = settle_from(pass, cluster, from);
            &&& after == cluster
            &&& outcomes.len() == pass.plan().len() - from
            &&& forall|i: int| 0 <= i < outcomes.len() ==> outcomes[i] == Outcome::Synced
        }),
    decreases pass.plan().len() - from,
{
    if from < pass.plan().len() {
        assert(in_place(pass, cluster, from));
        lemma_planned_members(pass.namespaces, pass.entries);
        assert(pass.plan().contains(pass.plan()[from]));
        lemma_settled_pass_is_quiet(pass, cluster, from + 1);
    }
}

/// One pass suffices, and a second one is quiet. A pass that begins with no
/// pair settled and is driven against a cluster where every namespace has
/// the workload identity, with no two entries sharing an endpoint, ends with
/// a success reported for every pair and every pair in place. The same pass
/// driven once more against the cluster as the first one left it reports the
/// same and leaves the cluster exactly as it was.
pub proof fn lemma_pass_is_idempotent(pass: PassView, cluster: Cluster, fuel: nat)
    requires
        pass.wf(),
        pass.cursor == 0,
        pass.phase == Phase::SecretRead,
        endpoints_differ(pass.entries),
        identities_exist(pass, cluster),
        fuel >= 4 * pass.plan().len(),
    ensures
        ({
            let (first, once) = run(pass, cluster, pass.opening(), fuel);
            let (second, twice) = run(pass, once, pass.opening(), fuel);
            &&& first.done() && second.done()
            &&& first.report.len() == pass.plan().len()
            &&& forall|k: int| 0 <= k < first.report.len() ==> first.report[k] == Outcome::Synced
            &&& forall|k: int| 0 <= k < pass.plan().len() ==> in_place(pass, once, k)
            &&& second.report == first.report
            &&& twice == once
        }),
{
    let (first, once) = run(pass, cluster, pass.opening(), fuel);
    lemma_pass_runs_every_pair(pass, cluster, fuel);
    lemma_pass_converges(pass, cluster, 0);
    let (second, twice) = run(pass, once, pass.opening(), fuel);
    lemma_pass_runs_every_pair(pass, once, fuel);
    lemma_settled_pass_is_quiet(pass, once, 0);
    let outcomes = settle_from(pass, cluster, 0).1;
    let again = settle_from(pass, once, 0).1;
    assert(pass.report =~= Seq::<Outcome>::empty());
    assert(pass.report + outcomes =~= outcomes);
    assert(pass.report + again =~= again);
    assert(again =~= outcomes);
}

} // verus!
