//! The cache slot that keeps the one opened database.

use vstd::prelude::*;
use std::sync::Arc;
use crate::database::{DatabaseHandle, OpenError};

verus! {

/// A slot that is empty or holds the shared handle of the opened database.
///
/// The slot is filled by the first opening that succeeds and is never
/// emptied or refilled after that. It is changed through `&mut` alone, so
/// whoever shares a slot between threads wraps it in a lock and thereby
/// makes each call below one critical section.
pub struct SharedCacheSlot {
    handle: Option<Arc<DatabaseHandle>>,
}

impl View for SharedCacheSlot {
    type V = Option<DatabaseHandle>;

    /// The database that the slot holds, where it holds one.
    closed spec fn view(&self) -> Option<DatabaseHandle> {
        match self.handle {
            Some(shared) => Some(*shared),
            None => None,
        }
    }
}

/// What a slot holds once an opening has ended with `outcome`: a slot that
/// holds a database keeps it, an empty slot takes the database of a
/// successful opening and stays empty after a failed one.
pub open spec fn slot_after(
    before: Option<DatabaseHandle>,
    outcome: Result<DatabaseHandle, OpenError>,
) -> Option<DatabaseHandle> {
    match before {
        Some(kept) => Some(kept),
        None => match outcome {
            Ok(opened) => Some(opened),
            Err(_) => None,
        },
    }
}

/// What the caller is handed once an opening has ended with `outcome`: the
/// database that the slot held already, else the outcome itself.
pub open spec fn handed_out(
    before: Option<DatabaseHandle>,
    outcome: Result<DatabaseHandle, OpenError>,
) -> Result<DatabaseHandle, OpenError> {
    match before {
        Some(kept) => Ok(kept),
        None => outcome,
    }
}

/// What a slot holds once each opening of `outcomes` has ended in turn.
pub open spec fn slot_after_all(
    before: Option<DatabaseHandle>,
    outcomes: Seq<Result<DatabaseHandle, OpenError>>,
) -> Option<DatabaseHandle>
    decreases outcomes.len(),
{
    if outcomes.len() == 0 {
        before
    } else {
        slot_after(slot_after_all(before, outcomes.drop_last()), outcomes.last())
    }
}

/// The database behind a shared handle, or the error in its place.
pub open spec fn unshared(shared: Result<Arc<DatabaseHandle>, OpenError>) -> Result<
    DatabaseHandle,
    OpenError,
> {
    match shared {
        Ok(handle) => Ok(*handle),
        Err(error) => Err(error),
    }
}

/// Calls `Arc::clone`.
///
/// Trusted: the clone points to the same allocation, so it stands for the
/// same value.
#[verifier::external_body]
fn share(handle: &Arc<DatabaseHandle>) -> (shared: Arc<DatabaseHandle>)
    ensures
        *shared == **handle,
{
    Arc::clone(handle)
}

impl SharedCacheSlot {
    /// An empty slot.
    pub fn new() -> (slot: SharedCacheSlot)
        ensures
            slot@ is None,
    {
        SharedCacheSlot { handle: None }
    }

    /// Tells whether the slot holds a database.
    pub fn is_populated(&self) -> (populated: bool)
        ensures
            populated == (self@ is Some),
    {
        self.handle.is_some()
    }

    /// Settles an opening that has ended with `outcome`.
    ///
    /// Where the slot holds a database already, that database is handed out
    /// and `outcome` is dropped. Else a successful outcome fills the slot
    /// and is handed out, and a failed one is returned with the slot left
    /// empty.
    pub fn settle(&mut self, outcome: Result<DatabaseHandle, OpenError>) -> (r: Result<
        Arc<DatabaseHandle>,
        OpenError,
    >)
        ensures
            final(self)@ == slot_after(old(self)@, outcome),
            unshared(r) == handed_out(old(self)@, outcome),
    {
        if let Some(kept) = &self.handle {
            return Ok(share(kept));
        }
        match outcome {
            Ok(opened) => {
                let stored = Arc::new(opened);
                let shared = share(&stored);
                self.handle = Some(stored);
                Ok(shared)
            },
            Err(error) => Err(error),
        }
    }

    /// Hands out the shared database, opening it with `opener` where the
    /// slot is still empty.
    ///
    /// `opener` is called at most once, and only on an empty slot. Its
    /// outcome is settled as [`SharedCacheSlot::settle`] says.
    pub fn get_or_open<F: FnOnce() -> Result<DatabaseHandle, OpenError>>(
        &mut self,
        opener: F,
    ) -> (r: Result<Arc<DatabaseHandle>, OpenError>)
        requires
            old(self)@ is None ==> opener.requires(()),
        ensures
            exists|outcome: Result<DatabaseHandle, OpenError>|
                #![trigger slot_after(old(self)@, outcome)]
                {
                    &&& old(self)@ is None ==> opener.ensures((), outcome)
                    &&& final(self)@ == slot_after(old(self)@, outcome)
                    &&& unshared(r) == handed_out(old(self)@, outcome)
                },
    {
        if let Some(kept) = &self.handle {
            let shared = share(kept);
            proof {
                let unused: Result<DatabaseHandle, OpenError> = arbitrary();
                assert(self@ == slot_after(self@, unused));
            }
            return Ok(shared);
        }
        let outcome = opener();
        let r = self.settle(outcome);
        proof {
            assert(self@ == slot_after(None, outcome));
        }
        r
    }
}

/// Opening happens once: after an opening has filled the slot, whatever a
/// later opening would have returned, the slot keeps the same database and
/// every caller is handed that database.
pub proof fn law_open_once(
    before: Option<DatabaseHandle>,
    first: Result<DatabaseHandle, OpenError>,
    later: Result<DatabaseHandle, OpenError>,
)
    ensures
        slot_after(before, first) matches Some(kept) ==> {
            &&& handed_out(before, first) == Ok::<DatabaseHandle, OpenError>(kept)
            &&& slot_after(Some(kept), later) == Some(kept)
            &&& handed_out(Some(kept), later) == Ok::<DatabaseHandle, OpenError>(kept)
        },
{
}

/// The first success wins: in any run of openings on an empty slot, the
/// slot stays empty until the first opening that succeeds, and holds the
/// database of that opening for good after it. Each caller before it is
/// handed its own failure, and each caller from it on the one database.
pub proof fn law_first_success_wins(outcomes: Seq<Result<DatabaseHandle, OpenError>>, first: int)
    requires
        0 <= first < outcomes.len(),
        outcomes[first] is Ok,
        forall|i: int| 0 <= i < first ==> outcomes[i] is Err,
    ensures
        forall|n: int|
            0 <= n <= first ==> #[trigger] slot_after_all(None, outcomes.take(n)) is None,
        forall|n: int|
            first < n <= outcomes.len() ==> #[trigger] slot_after_all(None, outcomes.take(n))
                == Some(outcomes[first]->Ok_0),
        forall|n: int|
            0 <= n < outcomes.len() ==> #[trigger] handed_out(
                slot_after_all(None, outcomes.take(n)),
                outcomes[n],
            ) == (if n < first {
                outcomes[n]
            } else {
                Ok(outcomes[first]->Ok_0)
            }),
{
    assert forall|n: int| 0 <= n <= outcomes.len() implies #[trigger] slot_after_all(
        None,
        outcomes.take(n),
    ) == (if n <= first {
        None
    } else {
        Some(outcomes[first]->Ok_0)
    }) by {
        lemma_slot_after_run(outcomes, first, n);
    }
}

/// The slot after the first `n` openings of a run whose first success is at
/// `first`.
proof fn lemma_slot_after_run(
    outcomes: Seq<Result<DatabaseHandle, OpenError>>,
    first: int,
    n: int,
)
    requires
        0 <= first < outcomes.len(),
        outcomes[first] is Ok,
        forall|i: int| 0 <= i < first ==> outcomes[i] is Err,
        0 <= n <= outcomes.len(),
    ensures
        slot_after_all(None, outcomes.take(n)) == (if n <= first {
            None
        } else {
            Some(outcomes[first]->Ok_0)
        }),
    decreases n,
{
    if n > 0 {
        lemma_slot_after_run(outcomes, first, n - 1);
        assert(outcomes.take(n).drop_last() =~= outcomes.take(n - 1));
    }
}

/// A failed opening leaves no trace: the slot stays empty, and the next
/// opening that succeeds fills it and is handed out.
pub proof fn law_retry_after_failure(failure: OpenError, opened: DatabaseHandle)
    ensures
        slot_after(None, Err(failure)) is None,
        handed_out(None, Err(failure)) == Err::<DatabaseHandle, OpenError>(failure),
        slot_after(slot_after(None, Err(failure)), Ok(opened)) == Some(opened),
        handed_out(slot_after(None, Err(failure)), Ok(opened)) == Ok::<DatabaseHandle, OpenError>(
            opened,
        ),
{
}

} // verus!
