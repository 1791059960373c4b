//! A model of the cluster, and what the reconciler's decisions do to it.
//!
//! The model is a cluster that answers every call faithfully: a read reports
//! what is stored or that nothing is, a create fails where the object exists,
//! a patch changes what it names and nothing else. The laws below are stated
//! over it and over the decisions' own specifications.

use crate::cluster::{
    classified, ApiFailure, IdentityReadView, Outcome, SecretReadView, SyncError, NOT_FOUND,
};
use crate::config::{wildcard, ConfigView};
use crate::pass::{lemma_planned_members, ObservationView, PassView, Phase, StepView};
use crate::worker::{
    bind_action, bound, entry_blob, secret_action, BindActionView, SecretActionView,
};
use vstd::prelude::*;

verus! {

/// The status code of a create that found the object in place.
pub const CONFLICT: u16 = 409;

/// What a cluster holds of the objects that the reconciler deals with.
pub struct Cluster {
    /// The blob of each secret, by namespace and name. A secret that stores
    /// no blob maps to `None`.
    pub secrets: Map<(Seq<char>, Seq<char>), Option<Seq<char>>>,
    /// The secret references of each workload identity, by namespace and
    /// name.
    pub identities: Map<(Seq<char>, Seq<char>), Seq<Seq<char>>>,
}

impl Cluster {
    /// What reading the secret `name` in `namespace` gives.
    pub open spec fn read_secret(self, namespace: Seq<char>, name: Seq<char>) -> SecretReadView {
        if self.secrets.contains_key((namespace, name)) {
            SecretReadView::Found(self.secrets[(namespace, name)])
        } else {
            SecretReadView::Failed(ApiFailure::Status(NOT_FOUND))
        }
    }

    /// What reading the workload identity `name` in `namespace` gives.
    pub open spec fn read_identity(self, namespace: Seq<char>, name: Seq<char>) -> IdentityReadView {
        if self.identities.contains_key((namespace, name)) {
            IdentityReadView::Found(self.identities[(namespace, name)])
        } else {
            IdentityReadView::Failed(ApiFailure::Status(NOT_FOUND))
        }
    }

    /// The cluster with the blob of a secret set.
    pub open spec fn with_secret(self, namespace: Seq<char>, name: Seq<char>, blob: Seq<char>) -> Cluster {
        Cluster { secrets: self.secrets.insert((namespace, name), Some(blob)), ..self }
    }

    /// The cluster with the references of a workload identity set.
    pub open spec fn with_identity(
        self,
        namespace: Seq<char>,
        name: Seq<char>,
        refs: Seq<Seq<char>>,
    ) -> Cluster {
        Cluster { identities: self.identities.insert((namespace, name), refs), ..self }
    }

    /// The cluster after the call `step`, and its answer.
    pub open spec fn answer(self, step: StepView) -> (Cluster, ObservationView) {
        match step {
            StepView::ReadSecret { namespace, name } => (
                self,
                ObservationView::Secret(self.read_secret(namespace, name)),
            ),
            StepView::CreateSecret(write) => if self.secrets.contains_key(
                (write.namespace, write.name),
            ) {
                (self, ObservationView::Written(Err(ApiFailure::Status(CONFLICT))))
            } else {
                (
                    self.with_secret(write.namespace, write.name, write.blob),
                    ObservationView::Written(Ok(())),
                )
            },
            StepView::PatchSecret(write) => if self.secrets.contains_key(
                (write.namespace, write.name),
            ) {
                (
                    self.with_secret(write.namespace, write.name, write.blob),
                    ObservationView::Written(Ok(())),
                )
            } else {
                (self, ObservationView::Written(Err(ApiFailure::Status(NOT_FOUND))))
            },
            StepView::ReadIdentity { namespace, name } => (
                self,
                ObservationView::Identity(self.read_identity(namespace, name)),
            ),
            StepView::PatchIdentity(write) => if self.identities.contains_key(
                (write.namespace, write.name),
            ) {
                (
                    self.with_identity(write.namespace, write.name, write.refs),
                    ObservationView::Written(Ok(())),
                )
            } else {
                (self, ObservationView::Written(Err(ApiFailure::Status(NOT_FOUND))))
            },
            StepView::Finished => (self, ObservationView::Written(Ok(()))),
        }
    }

    /// The cluster after what was decided about a secret is carried out.
    pub open spec fn after_secret(self, action: SecretActionView) -> Cluster {
        match action {
            SecretActionView::Patch(write) => self.answer(StepView::PatchSecret(write)).0,
            SecretActionView::Create(write) => self.answer(StepView::CreateSecret(write)).0,
            _ => self,
        }
    }

    /// The cluster after what was decided about a workload identity is
    /// carried out.
    pub open spec fn after_binding(self, action: BindActionView) -> Cluster {
        match action {
            BindActionView::Patch(write) => self.answer(StepView::PatchIdentity(write)).0,
            _ => self,
        }
    }
}

/// Whether a call writes to the cluster.
pub open spec fn writes(step: StepView) -> bool {
    step is CreateSecret || step is PatchSecret || step is PatchIdentity
}

/// Reconciling the secret of a pair twice is reconciling it once. After the
/// first time the secret stores the entry's blob; the second time nothing is
/// written and the cluster stays as it is. Nothing but that one secret is
/// touched.
pub proof fn lemma_secret_idempotent(cluster: Cluster, namespace: Seq<char>, cfg: ConfigView)
    requires
        cfg.selects(namespace),
    ensures
        ({
            let first = secret_action(
                namespace,
                cfg,
                cluster.read_secret(namespace, cfg.server),
            );
            let once = cluster.after_secret(first);
            let second = secret_action(namespace, cfg, once.read_secret(namespace, cfg.server));
            &&& once.secrets == cluster.secrets.insert(
                (namespace, cfg.server),
                Some(entry_blob(cfg)),
            )
            &&& once.identities == cluster.identities
            &&& second == SecretActionView::Keep
            &&& once.after_secret(second) == once
        }),
{
    let first = secret_action(namespace, cfg, cluster.read_secret(namespace, cfg.server));
    let once = cluster.after_secret(first);
    assert(once.secrets =~= cluster.secrets.insert((namespace, cfg.server), Some(entry_blob(cfg))));
}

/// An entry that is not meant for a namespace writes nothing there, whatever
/// the cluster holds, and no pass takes the pair up.
pub proof fn lemma_unselected_is_skipped(
    namespaces: Seq<Seq<char>>,
    entries: Seq<ConfigView>,
    n: int,
    e: int,
    read: SecretReadView,
)
    requires
        0 <= n < namespaces.len(),
        0 <= e < entries.len(),
        !entries[e].selects(namespaces[n]),
    ensures
        secret_action(namespaces[n], entries[e], read) == SecretActionView::Skip,
        !crate::pass::planned(namespaces, entries).contains((n, e)),
{
    lemma_planned_members(namespaces, entries);
}

/// An entry that is meant for a namespace is taken up by the pass, and where
/// the secret is missing or stores another blob, the entry's blob is written
/// under the endpoint's name in that namespace.
pub proof fn lemma_selected_is_written(
    namespaces: Seq<Seq<char>>,
    entries: Seq<ConfigView>,
    n: int,
    e: int,
    cluster: Cluster,
)
    requires
        0 <= n < namespaces.len(),
        0 <= e < entries.len(),
        entries[e].selects(namespaces[n]),
    ensures
        crate::pass::planned(namespaces, entries).contains((n, e)),
        ({
            let read = cluster.read_secret(namespaces[n], entries[e].server);
            let action = secret_action(namespaces[n], entries[e], read);
            if read == SecretReadView::Found(Some(entry_blob(entries[e]))) {
                action == SecretActionView::Keep
            } else {
                &&& action is Patch || action is Create
                &&& cluster.after_secret(action).read_secret(namespaces[n], entries[e].server)
                    == SecretReadView::Found(Some(entry_blob(entries[e])))
            }
        }),
{
    lemma_planned_members(namespaces, entries);
}

/// An entry whose selector holds the wildcard is meant for every namespace,
/// named in the selector or not.
pub proof fn lemma_wildcard_selects_all(cfg: ConfigView, namespace: Seq<char>)
    requires
        cfg.namespaces.contains(wildcard()),
    ensures
        cfg.selects(namespace),
{
}

/// Binding adds and never takes away: the references that were there stay,
/// in their places, and the secret is among the references afterwards.
pub proof fn lemma_binding_keeps_references(refs: Seq<Seq<char>>, secret_name: Seq<char>)
    ensures
        bound(refs, secret_name).len() >= refs.len(),
        bound(refs, secret_name).take(refs.len() as int) == refs,
        bound(refs, secret_name).contains(secret_name),
        forall|r: Seq<char>| refs.contains(r) ==> bound(refs, secret_name).contains(r),
{
    let after = bound(refs, secret_name);
    assert(after.take(refs.len() as int) =~= refs);
    if !refs.contains(secret_name) {
        assert(after[refs.len() as int] == secret_name);
    }
    assert forall|r: Seq<char>| refs.contains(r) implies after.contains(r) by {
        let k = choose|k: int| 0 <= k < refs.len() && refs[k] == r;
        assert(after[k] == r);
    }
}

/// How often `name` occurs in `refs`.
pub open spec fn occurrences(refs: Seq<Seq<char>>, name: Seq<char>) -> nat
    decreases refs.len(),
{
    if refs.len() == 0 {
        0
    } else {
        occurrences(refs.drop_last(), name) + if refs.last() == name {
            1nat
        } else {
            0nat
        }
    }
}

/// A name that is not among the references does not occur in them.
pub proof fn lemma_absent_occurs_never(refs: Seq<Seq<char>>, name: Seq<char>)
    requires
        !refs.contains(name),
    ensures
        occurrences(refs, name) == 0,
    decreases refs.len(),
{
    if refs.len() > 0 {
        assert(refs[refs.len() - 1] != name);
        assert forall|k: int| 0 <= k < refs.drop_last().len() implies refs.drop_last()[k]
            != name by {
            assert(refs[k] != name);
        }
        lemma_absent_occurs_never(refs.drop_last(), name);
    }
}

/// Binding twice is binding once. A secret that was not referred to is
/// referred to exactly once afterwards, and the second binding writes
/// nothing.
pub proof fn lemma_binding_idempotent(
    identity: Seq<char>,
    namespace: Seq<char>,
    refs: Seq<Seq<char>>,
    secret_name: Seq<char>,
)
    ensures
        bound(bound(refs, secret_name), secret_name) == bound(refs, secret_name),
        !refs.contains(secret_name) ==> occurrences(bound(refs, secret_name), secret_name) == 1,
        refs.contains(secret_name) ==> occurrences(bound(refs, secret_name), secret_name)
            == occurrences(refs, secret_name),
        bind_action(
            identity,
            namespace,
            secret_name,
            IdentityReadView::Found(bound(refs, secret_name)),
        ) == BindActionView::Keep,
{
    lemma_binding_keeps_references(refs, secret_name);
    if !refs.contains(secret_name) {
        lemma_absent_occurs_never(refs, secret_name);
        assert(refs.push(secret_name).drop_last() =~= refs);
    }
}

/// Binding a workload identity of the cluster twice leaves the cluster as
/// binding it once does, and touches no other object.
pub proof fn lemma_binding_settles(
    cluster: Cluster,
    identity: Seq<char>,
    namespace: Seq<char>,
    secret_name: Seq<char>,
)
    requires
        cluster.identities.contains_key((namespace, identity)),
    ensures
        ({
            let refs = cluster.identities[(namespace, identity)];
            let first = bind_action(
                identity,
                namespace,
                secret_name,
                cluster.read_identity(namespace, identity),
            );
            let once = cluster.after_binding(first);
            let second = bind_action(
                identity,
                namespace,
                secret_name,
                once.read_identity(namespace, identity),
            );
            &&& once.identities == cluster.identities.insert(
                (namespace, identity),
                bound(refs, secret_name),
            )
            &&& once.secrets == cluster.secrets
            &&& second == BindActionView::Keep
            &&& once.after_binding(second) == once
        }),
{
    let refs = cluster.identities[(namespace, identity)];
    let first = bind_action(
        identity,
        namespace,
        secret_name,
        cluster.read_identity(namespace, identity),
    );
    let once = cluster.after_binding(first);
    lemma_binding_keeps_references(refs, secret_name);
    assert(once.identities =~= cluster.identities.insert(
        (namespace, identity),
        bound(refs, secret_name),
    ));
}

/// A workload identity that does not exist is a fatal error, and so is a
/// refusal for want of permission; a timeout and a fault of the server are
/// worth another try.
pub proof fn lemma_failure_classes(identity: Seq<char>, namespace: Seq<char>, secret_name: Seq<char>)
    ensures
        bind_action(
            identity,
            namespace,
            secret_name,
            IdentityReadView::Failed(ApiFailure::Status(NOT_FOUND)),
        ) == BindActionView::Fail(SyncError::Fatal(ApiFailure::Status(NOT_FOUND))),
        classified(ApiFailure::Status(403)) == SyncError::Fatal(ApiFailure::Status(403)),
        classified(ApiFailure::Transport) == SyncError::Transient(ApiFailure::Transport),
        forall|code: u16| code >= 500 ==> classified(ApiFailure::Status(code))
            == SyncError::Transient(ApiFailure::Status(code)),
{
}

/// No pair holds up another. Whatever answer a pass gets, it stays well
/// formed over the same plan; it settles at most the pair in progress, with
/// one outcome added to the report and none changed; and when a pair is
/// settled the call that is due opens the next pair, or ends the pass where
/// none is left, whether the pair failed or not.
pub proof fn lemma_pairs_are_isolated(pass: PassView, seen: ObservationView)
    requires
        pass.wf(),
        !pass.done(),
    ensures
        ({
            let (after, step) = pass.next(seen);
            &&& after.wf()
            &&& after.plan() == pass.plan()
            &&& after.identity == pass.identity
            &&& after.cursor == pass.cursor || after.cursor == pass.cursor + 1
            &&& after.cursor == pass.cursor ==> after.report == pass.report && !(step is Finished)
            &&& after.cursor == pass.cursor + 1 ==> after.report.drop_last() == pass.report
                && step == after.opening() && after.phase == Phase::SecretRead
            &&& step is Finished <==> after.done()
        }),
        forall|one: Outcome, other: Outcome| (#[trigger] pass.settle(one)).1 == (#[trigger] pass.settle(other)).1,
{
    let (after, step) = pass.next(seen);
    if after.cursor == pass.cursor + 1 {
        assert(after.report.drop_last() =~= pass.report);
    }
}

/// A pass that is over has reported on every pair of its plan, once.
pub proof fn lemma_finished_pass_reports_all(pass: PassView)
    requires
        pass.wf(),
        pass.done(),
    ensures
        pass.report.len() == pass.plan().len(),
        forall|seen: ObservationView| #[trigger] pass.next(seen) == (pass, StepView::Finished),
{
}

/// The workload identity is turned to only after the secret: a pass asks for
/// the identity's references only when the secret was found up to date or
/// its write went through, and patches them only after reading them.
pub proof fn lemma_binding_follows_secret(pass: PassView, seen: ObservationView)
    requires
        pass.wf(),
        !pass.done(),
    ensures
        pass.next(seen).1 is ReadIdentity ==> ((pass.phase == Phase::SecretRead && seen
            == ObservationView::Secret(SecretReadView::Found(Some(entry_blob(pass.entry())))))
            || (pass.phase == Phase::SecretWrite && seen matches ObservationView::Written(Ok(_)))),
        pass.next(seen).1 is PatchIdentity ==> pass.phase == Phase::IdentityRead && seen is Identity,
{
    lemma_planned_members(pass.namespaces, pass.entries);
    assert(pass.plan().contains(pass.plan()[pass.cursor]));
}

} // verus!
