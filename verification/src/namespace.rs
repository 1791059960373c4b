//! The namespaces that a pass works on.

use crate::cluster::ApiFailure;
use crate::text::same;
use crate::worker::SyncWorker;
use vstd::prelude::*;

verus! {

/// Why the namespaces could not be listed.
#[derive(Debug, Clone, Copy, PartialEq, Eq, Structural)]
pub struct QueryError {
    /// What the listing call reported.
    pub failure: ApiFailure,
}

/// The phase of a namespace that is in use.
pub open spec fn active_phase() -> Seq<char> {
    "Active"@
}

/// Whether a lifecycle phase is the active one. A namespace without a phase,
/// or with any other, is not active.
pub open spec fn is_active(phase: Option<Seq<char>>) -> bool {
    phase == Some(active_phase())
}

/// The views of listed namespaces: name and phase, in order.
pub open spec fn listed(items: Seq<(String, Option<String>)>) -> Seq<(Seq<char>, Option<Seq<char>>)> {
    Seq::new(
        items.len(),
        |i: int|
            (
                items[i].0@,
                match items[i].1 {
                    None => None,
                    Some(phase) => Some(phase@),
                },
            ),
    )
}

/// The names of the active namespaces among `items`, in order.
pub open spec fn active_names(items: Seq<(Seq<char>, Option<Seq<char>>)>) -> Seq<Seq<char>>
    decreases items.len(),
{
    if items.len() == 0 {
        Seq::empty()
    } else {
        let before = active_names(items.drop_last());
        if is_active(items.last().1) {
            before.push(items.last().0)
        } else {
            before
        }
    }
}

/// A name is listed as active exactly where a namespace of that name is in
/// the active phase.
pub proof fn lemma_active_names_members(items: Seq<(Seq<char>, Option<Seq<char>>)>, name: Seq<char>)
    ensures
        active_names(items).contains(name) <==> items.contains((name, Some(active_phase()))),
    decreases items.len(),
{
    if items.len() > 0 {
        let front = items.drop_last();
        let before = active_names(front);
        let wanted = (name, Some(active_phase()));
        lemma_active_names_members(front, name);
        if items.contains(wanted) {
            let k = choose|k: int| 0 <= k < items.len() && items[k] == wanted;
            if k < items.len() - 1 {
                assert(front[k] == wanted);
                assert(before.contains(name));
                let m = choose|m: int| 0 <= m < before.len() && before[m] == name;
                assert(active_names(items)[m] == name);
            } else {
                assert(items.last() == wanted);
                assert(active_names(items).last() == name);
            }
        }
        if active_names(items).contains(name) {
            let m = choose|m: int| 0 <= m < active_names(items).len() && active_names(items)[m]
                == name;
            if is_active(items.last().1) && m == before.len() {
                assert(items[items.len() - 1] == wanted);
            } else {
                assert(before[m] == name);
                let k = choose|k: int| 0 <= k < front.len() && front[k] == wanted;
                assert(items[k] == wanted);
            }
        }
    }
}

/// Whether a lifecycle phase is the active one.
pub fn active(phase: &Option<String>) -> (r: bool)
    ensures
        r == is_active(
            match *phase {
                None => None,
                Some(text) => Some(text@),
            },
        ),
{
    match phase {
        None => false,
        Some(text) => same(text.as_str(), "Active"),
    }
}

impl SyncWorker {
    /// The names of the active namespaces, given what listing the namespaces
    /// gave. A failed listing is an error, never an empty list.
    pub fn get_all_ns(&self, listing: Result<Vec<(String, Option<String>)>, ApiFailure>) -> (r:
        Result<Vec<String>, QueryError>)
        ensures
            match listing {
                Ok(items) => r matches Ok(names) && crate::text::texts(names@) == active_names(
                    listed(items@),
                ),
                Err(failure) => r == Err::<Vec<String>, QueryError>(QueryError { failure }),
            },
    {
        match listing {
            Err(failure) => Err(QueryError { failure }),
            Ok(items) => {
                let ghost all = listed(items@);
                let mut names: Vec<String> = Vec::new();
                let mut i: usize = 0;
                proof {
                    assert(all.take(0) =~= Seq::<(Seq<char>, Option<Seq<char>>)>::empty());
                    assert(crate::text::texts(names@) =~= active_names(all.take(0)));
                }
                while i < items.len()
                    invariant
                        i <= items.len(),
                        all == listed(items@),
                        crate::text::texts(names@) == active_names(all.take(i as int)),
                    decreases items.len() - i,
                {
                    proof {
                        let now = all.take(i as int + 1);
                        assert(now.drop_last() =~= all.take(i as int));
                        assert(now.last() == all[i as int]);
                    }
                    if active(&items[i].1) {
                        let ghost prev = names@;
                        names.push(items[i].0.clone());
                        proof {
                            assert(crate::text::texts(names@) =~= crate::text::texts(prev).push(
                                items@[i as int].0@,
                            ));
                        }
                    }
                    i = i + 1;
                }
                proof {
                    assert(all.take(i as int) =~= all);
                }
                Ok(names)
            },
        }
    }
}

} // verus!
