//! The reconcile loop: when a pass runs.
//!
//! Namespace arrivals, changes of the configuration record and a periodic
//! tick all ask for a pass. At most one pass runs at a time. What asks for a
//! pass while one runs is remembered as a single request for one more, however
//! often it is asked. A stop lets the running pass end and schedules no other.

use crate::config::{Config, Error};
use crate::namespace::{active, is_active, QueryError};
use crate::text::same;
use crate::worker::SyncWorker;
use vstd::prelude::*;

verus! {

/// What asks for a pass.
#[derive(Debug, Clone, Copy, PartialEq, Eq, Structural)]
pub enum Trigger {
    /// A namespace arrived.
    NamespaceCreated,
    /// The configuration record changed.
    ConfigChanged,
    /// The periodic tick, which mends what the events missed.
    Tick,
}

/// Where the loop stands.
#[derive(Debug, Clone, Copy, PartialEq, Eq, Structural)]
pub enum LoopState {
    /// No pass runs.
    Idle,
    /// A pass runs: the configuration and the namespaces are being read.
    Listing,
    /// A pass runs: the pairs are being reconciled.
    PerNamespaceSync,
    /// The loop has ended.
    Shutdown,
}

/// Why a pass was given up before any pair was touched.
#[derive(Debug, Clone, Copy, PartialEq, Eq, Structural)]
pub enum PassError {
    /// The configuration could not be loaded.
    Config(Error),
    /// The namespaces could not be listed.
    Query(QueryError),
}

/// What the caller of the loop is to do next.
#[derive(Debug, Clone, Copy, PartialEq, Eq, Structural)]
pub enum Directive {
    /// Nothing new: go on waiting, or go on with the pass that runs.
    Wait,
    /// Begin a pass: read the configuration and list the namespaces.
    List,
    /// Leave the loop.
    Exit,
}

/// The state of the loop, as plain values.
pub struct LoopView {
    /// Where the loop stands.
    pub state: LoopState,
    /// Whether one more pass was asked for while a pass was running.
    pub rerun: bool,
    /// Whether a stop was asked for while a pass was running.
    pub stopping: bool,
    /// Why the last pass was given up, if it was.
    pub failure: Option<PassError>,
}

impl LoopView {
    /// Whether a pass runs.
    pub open spec fn in_pass(self) -> bool {
        self.state == LoopState::Listing || self.state == LoopState::PerNamespaceSync
    }

    /// Requests are remembered only while a pass runs.
    pub open spec fn wf(self) -> bool {
        !self.in_pass() ==> !self.rerun && !self.stopping
    }

    /// The loop after something asked for a pass. From rest a pass begins.
    /// While a pass runs the request is remembered, unless the loop is
    /// stopping. A loop that has ended stays so.
    pub open spec fn on_trigger(self) -> (LoopView, Directive) {
        match self.state {
            LoopState::Idle => (LoopView { state: LoopState::Listing, ..self }, Directive::List),
            LoopState::Listing | LoopState::PerNamespaceSync => (
                LoopView { rerun: !self.stopping, ..self },
                Directive::Wait,
            ),
            LoopState::Shutdown => (self, Directive::Exit),
        }
    }

    /// The loop once the running pass is over: it ends if a stop was asked
    /// for, begins the one pass that was asked for meanwhile, or rests.
    pub open spec fn after_pass(self) -> (LoopView, Directive) {
        if self.stopping {
            (
                LoopView { state: LoopState::Shutdown, rerun: false, stopping: false, ..self },
                Directive::Exit,
            )
        } else if self.rerun {
            (LoopView { state: LoopState::Listing, rerun: false, ..self }, Directive::List)
        } else {
            (LoopView { state: LoopState::Idle, ..self }, Directive::Wait)
        }
    }

    /// The loop after the configuration and the namespaces were read. Where
    /// both were had the pairs are reconciled. Where either failed the pass
    /// is over with that failure on record, the configuration's first.
    pub open spec fn on_listed(self, config: Option<Error>, namespaces: Option<QueryError>) -> (
        LoopView,
        Directive,
    ) {
        if self.state != LoopState::Listing {
            (self, Directive::Wait)
        } else {
            match (config, namespaces) {
                (Some(error), _) => LoopView {
                    failure: Some(PassError::Config(error)),
                    ..self
                }.after_pass(),
                (None, Some(error)) => LoopView {
                    failure: Some(PassError::Query(error)),
                    ..self
                }.after_pass(),
                (None, None) => (
                    LoopView { state: LoopState::PerNamespaceSync, ..self },
                    Directive::Wait,
                ),
            }
        }
    }

    /// The loop after the pairs of the running pass were reconciled: the pass
    /// was not given up, so no failure of it stays on record.
    pub open spec fn on_pass_done(self) -> (LoopView, Directive) {
        if self.state != LoopState::PerNamespaceSync {
            (self, Directive::Wait)
        } else {
            LoopView { failure: None, ..self }.after_pass()
        }
    }

    /// The loop after a stop was asked for. At rest it ends at once. While a
    /// pass runs, the pass is left to end.
    pub open spec fn on_stop(self) -> (LoopView, Directive) {
        match self.state {
            LoopState::Idle | LoopState::Shutdown => (
                LoopView { state: LoopState::Shutdown, ..self },
                Directive::Exit,
            ),
            LoopState::Listing | LoopState::PerNamespaceSync => (
                LoopView { stopping: true, rerun: false, ..self },
                Directive::Wait,
            ),
        }
    }

    /// The loop after `count` requests for a pass.
    pub open spec fn after_triggers(self, count: nat) -> LoopView
        decreases count,
    {
        if count == 0 {
            self
        } else {
            self.on_trigger().0.after_triggers((count - 1) as nat)
        }
    }
}

/// However many requests arrive while a pass runs, the loop stands as after
/// one of them: when the pass is over exactly one more pass begins, and when
/// that one is over without a new request the loop rests.
pub proof fn lemma_triggers_coalesce(start: LoopView, count: nat)
    requires
        start.in_pass(),
        count >= 1,
    ensures
        start.after_triggers(count) == start.on_trigger().0,
        !start.stopping ==> start.after_triggers(count).after_pass() == (
            LoopView { state: LoopState::Listing, rerun: false, ..start },
            Directive::List,
        ),
        !start.stopping ==> start.after_triggers(count).after_pass().0.on_listed(
            None,
            None,
        ).0.on_pass_done() == (
            LoopView { state: LoopState::Idle, rerun: false, failure: None, ..start },
            Directive::Wait,
        ),
    decreases count,
{
    let once = start.on_trigger().0;
    assert(once.on_trigger().0 == once);
    if count > 1 {
        lemma_triggers_coalesce(once, (count - 1) as nat);
    } else {
        assert(once.after_triggers(0) == once);
    }
}

/// In every state that can be reached, a pass is begun only from rest or
/// when the pass before it is over: a request never begins a second pass
/// beside one that runs.
pub proof fn lemma_one_pass_at_a_time(start: LoopView)
    requires
        start.wf(),
    ensures
        start.on_trigger().0.wf(),
        start.after_pass().0.wf(),
        start.on_stop().0.wf(),
        start.on_pass_done().0.wf(),
        forall|config: Option<Error>, namespaces: Option<QueryError>|
            (#[trigger] start.on_listed(config, namespaces)).0.wf(),
        start.in_pass() ==> start.on_trigger().1 == Directive::Wait,
        start.on_trigger().1 == Directive::List <==> start.state == LoopState::Idle,
{
}

/// The reconcile loop's state.
pub struct ReconcileLoop {
    state: LoopState,
    rerun: bool,
    stopping: bool,
    failure: Option<PassError>,
}

impl View for ReconcileLoop {
    type V = LoopView;

    closed spec fn view(&self) -> LoopView {
        LoopView {
            state: self.state,
            rerun: self.rerun,
            stopping: self.stopping,
            failure: self.failure,
        }
    }
}

impl ReconcileLoop {
    /// A loop at rest.
    pub fn new() -> (r: Self)
        ensures
            r@ == (LoopView {
                state: LoopState::Idle,
                rerun: false,
                stopping: false,
                failure: None,
            }),
            r@.wf(),
    {
        ReconcileLoop { state: LoopState::Idle, rerun: false, stopping: false, failure: None }
    }

    /// Where the loop stands.
    pub fn state(&self) -> (s: LoopState)
        ensures
            s == self@.state,
    {
        self.state
    }

    /// Why the last pass was given up, if it was.
    pub fn failure(&self) -> (f: Option<PassError>)
        ensures
            f == self@.failure,
    {
        self.failure
    }

    /// Whether one more pass is asked for once the running one is over.
    pub fn rerun_requested(&self) -> (r: bool)
        ensures
            r == self@.rerun,
    {
        self.rerun
    }

    fn after_pass(&mut self) -> (directive: Directive)
        ensures
            (final(self)@, directive) == old(self)@.after_pass(),
    {
        if self.stopping {
            self.state = LoopState::Shutdown;
            self.rerun = false;
            self.stopping = false;
            Directive::Exit
        } else if self.rerun {
            self.state = LoopState::Listing;
            self.rerun = false;
            Directive::List
        } else {
            self.state = LoopState::Idle;
            Directive::Wait
        }
    }

    /// Takes a request for a pass.
    pub fn on_trigger(&mut self, trigger: Trigger) -> (directive: Directive)
        ensures
            (final(self)@, directive) == old(self)@.on_trigger(),
    {
        match self.state {
            LoopState::Idle => {
                self.state = LoopState::Listing;
                Directive::List
            },
            LoopState::Listing | LoopState::PerNamespaceSync => {
                self.rerun = !self.stopping;
                Directive::Wait
            },
            LoopState::Shutdown => Directive::Exit,
        }
    }

    /// Takes what reading the configuration and listing the namespaces gave.
    /// Where both were had, they are handed back for the pairs to be
    /// reconciled; where either failed, the pass is over and the directive
    /// says what is next.
    pub fn on_listed(
        &mut self,
        config: Result<Vec<Config>, Error>,
        namespaces: Result<Vec<String>, QueryError>,
    ) -> (r: Result<(Vec<String>, Vec<Config>), Directive>)
        ensures
            final(self)@ == old(self)@.on_listed(config.err(), namespaces.err()).0,
            r matches Err(directive) ==> directive == old(self)@.on_listed(
                config.err(),
                namespaces.err(),
            ).1,
            r is Ok <==> old(self)@.state == LoopState::Listing && config is Ok && namespaces is Ok,
            r matches Ok(work) ==> config == Ok::<Vec<Config>, Error>(work.1) && namespaces == Ok::<
                Vec<String>,
                QueryError,
            >(work.0),
    {
        if self.state != LoopState::Listing {
            return Err(Directive::Wait);
        }
        match config {
            Err(error) => {
                self.failure = Some(PassError::Config(error));
                Err(self.after_pass())
            },
            Ok(entries) => match namespaces {
                Err(error) => {
                    self.failure = Some(PassError::Query(error));
                    Err(self.after_pass())
                },
                Ok(names) => {
                    self.state = LoopState::PerNamespaceSync;
                    Ok((names, entries))
                },
            },
        }
    }

    /// Takes the end of the pairs' reconciling.
    pub fn on_pass_done(&mut self) -> (directive: Directive)
        ensures
            (final(self)@, directive) == old(self)@.on_pass_done(),
    {
        if self.state != LoopState::PerNamespaceSync {
            Directive::Wait
        } else {
            self.failure = None;
            self.after_pass()
        }
    }

    /// Takes a request to stop.
    pub fn on_stop(&mut self) -> (directive: Directive)
        ensures
            (final(self)@, directive) == old(self)@.on_stop(),
    {
        match self.state {
            LoopState::Idle | LoopState::Shutdown => {
                self.state = LoopState::Shutdown;
                Directive::Exit
            },
            LoopState::Listing | LoopState::PerNamespaceSync => {
                self.stopping = true;
                self.rerun = false;
                Directive::Wait
            },
        }
    }
}

/// How an object changed.
#[derive(Debug, Clone, Copy, PartialEq, Eq, Structural)]
pub enum Change {
    Added,
    Modified,
    Deleted,
}

/// A change of a namespace, as a watch reports it.
#[derive(Debug)]
pub struct NamespaceEvent {
    pub change: Change,
    pub name: String,
    pub phase: Option<String>,
}

/// A change of a secret, as a watch reports it.
#[derive(Debug)]
pub struct SecretEvent {
    pub change: Change,
    pub namespace: String,
    pub name: String,
}

impl SyncWorker {
    /// Whether a change of a namespace asks for a pass: the arrival of an
    /// active namespace does, nothing else.
    pub fn watch_ns(&self, event: &NamespaceEvent) -> (trigger: Option<Trigger>)
        ensures
            trigger == (if event.change == Change::Added && is_active(
                match event.phase {
                    None => None,
                    Some(text) => Some(text@),
                },
            ) {
                Some(Trigger::NamespaceCreated)
            } else {
                None
            }),
    {
        match event.change {
            Change::Added => {
                if active(&event.phase) {
                    Some(Trigger::NamespaceCreated)
                } else {
                    None
                }
            },
            _ => None,
        }
    }

    /// Whether a change of a secret asks for a pass: every change of the
    /// configuration record does, no change of another secret.
    pub fn watch_cfg_secret(&self, event: &SecretEvent) -> (trigger: Option<Trigger>)
        ensures
            trigger == (if event.namespace@ == self@.cfg_ns && event.name@ == self@.cfg_name {
                Some(Trigger::ConfigChanged)
            } else {
                None
            }),
    {
        if same(event.namespace.as_str(), self.cfg_ns()) && same(
            event.name.as_str(),
            self.cfg_name(),
        ) {
            Some(Trigger::ConfigChanged)
        } else {
            None
        }
    }
}

} // verus!
