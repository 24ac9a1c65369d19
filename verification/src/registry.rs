//! Process-wide cancellation bookkeeping and the supervision rules: a registry
//! mapping request identifiers to cancellation flags, and the mapping of a
//! worker's terminal state to the caller-visible outcome.
use vstd::prelude::*;

use crate::error::{RelayError, RelayResult};
use crate::interop::Response;

verus! {

/// Registry of in-flight requests: each entry is one cancellation slot,
/// keyed by request identifier, holding its flag.
pub struct CancellationRegistry {
    entries: Vec<(i64, bool)>,
}

/// Map described by an entry list; a later entry for a key wins.
pub closed spec fn entries_map(s: Seq<(i64, bool)>) -> Map<i64, bool>
    decreases s.len(),
{
    if s.len() == 0 {
        Map::empty()
    } else {
        entries_map(s.drop_last()).insert(s.last().0, s.last().1)
    }
}

spec fn unique_keys(s: Seq<(i64, bool)>) -> bool {
    forall|i: int, j: int| 0 <= i < j < s.len() ==> s[i].0 != s[j].0
}

proof fn lemma_key_absent(s: Seq<(i64, bool)>, id: i64)
    requires
        forall|j: int| 0 <= j < s.len() ==> s[j].0 != id,
    ensures
        !entries_map(s).contains_key(id),
    decreases s.len(),
{
    if s.len() > 0 {
        lemma_key_absent(s.drop_last(), id);
    }
}

proof fn lemma_lookup(s: Seq<(i64, bool)>, i: int)
    requires
        unique_keys(s),
        0 <= i < s.len(),
    ensures
        entries_map(s).contains_key(s[i].0),
        entries_map(s)[s[i].0] == s[i].1,
    decreases s.len(),
{
    if i == s.len() - 1 {
    } else {
        lemma_lookup(s.drop_last(), i);
    }
}

proof fn lemma_remove_at(s: Seq<(i64, bool)>, i: int)
    requires
        unique_keys(s),
        0 <= i < s.len(),
    ensures
        entries_map(s.remove(i)) == entries_map(s).remove(s[i].0),
    decreases s.len(),
{
    let id = s[i].0;
    if i == s.len() - 1 {
        assert(s.remove(i) =~= s.drop_last());
        lemma_key_absent(s.drop_last(), id);
        assert(entries_map(s.drop_last()).insert(id, s[i].1).remove(id) =~= entries_map(
            s.drop_last(),
        ));
    } else {
        lemma_remove_at(s.drop_last(), i);
        assert(s.remove(i).drop_last() =~= s.drop_last().remove(i));
        assert(s.remove(i).last() == s.last());
        assert(entries_map(s.remove(i)) == entries_map(s.drop_last().remove(i)).insert(
            s.last().0,
            s.last().1,
        ));
        assert(entries_map(s.drop_last()).remove(id).insert(s.last().0, s.last().1) =~= entries_map(
            s.drop_last(),
        ).insert(s.last().0, s.last().1).remove(id));
    }
}

proof fn lemma_push(s: Seq<(i64, bool)>, id: i64, v: bool)
    ensures
        entries_map(s.push((id, v))) == entries_map(s).insert(id, v),
{
    assert(s.push((id, v)).drop_last() =~= s);
}

impl View for CancellationRegistry {
    type V = Map<i64, bool>;

    closed spec fn view(&self) -> Map<i64, bool> {
        entries_map(self.entries@)
    }
}

impl CancellationRegistry {
    /// Well-formedness: one slot per request identifier.
    pub closed spec fn wf(&self) -> bool {
        unique_keys(self.entries@)
    }

    /// An empty registry: no request is in flight.
    pub fn new() -> (r: CancellationRegistry)
        ensures
            r@ == Map::<i64, bool>::empty(),
            r.wf(),
    {
        CancellationRegistry { entries: Vec::new() }
    }

    fn find_idx(&self, id: i64) -> (r: Option<usize>)
        ensures
            match r {
                Some(i) => i < self.entries@.len() && self.entries@[i as int].0 == id,
                None => forall|j: int| 0 <= j < self.entries@.len() ==> self.entries@[j].0 != id,
            },
    {
        let mut i: usize = 0;
        let n = self.entries.len();
        while i < n
            invariant
                n == self.entries@.len(),
                i <= n,
                forall|j: int| 0 <= j < i ==> self.entries@[j].0 != id,
            decreases n - i,
        {
            if self.entries[i].0 == id {
                return Some(i);
            }
            i += 1;
        }
        None
    }

    fn remove_key(&mut self, id: i64)
        requires
            old(self).wf(),
        ensures
            final(self)@ == old(self)@.remove(id),
            final(self).wf(),
            forall|j: int|
                0 <= j < final(self).entries@.len() ==> final(self).entries@[j].0 != id,
    {
        match self.find_idx(id) {
            Some(i) => {
                proof {
                    lemma_remove_at(self.entries@, i as int);
                }
                self.entries.remove(i);
            },
            None => {
                proof {
                    lemma_key_absent(self.entries@, id);
                    assert(entries_map(self.entries@).remove(id) =~= entries_map(self.entries@));
                }
            },
        }
    }

    /// Create (or overwrite) the slot for `id`, with the flag not yet set.
    pub fn register(&mut self, id: i64)
        requires
            old(self).wf(),
        ensures
            final(self)@ == old(self)@.insert(id, false),
            final(self).wf(),
    {
        self.remove_key(id);
        proof {
            lemma_push(self.entries@, id, false);
        }
        self.entries.push((id, false));
        proof {
            assert(old(self)@.remove(id).insert(id, false) =~= old(self)@.insert(id, false));
        }
    }

    /// Set the flag for `id` if a slot exists; a no-op otherwise.
    pub fn signal(&mut self, id: i64)
        requires
            old(self).wf(),
        ensures
            final(self)@ == signal_spec(old(self)@, id),
            final(self).wf(),
    {
        match self.find_idx(id) {
            Some(i) => {
                proof {
                    lemma_lookup(self.entries@, i as int);
                }
                self.remove_key(id);
                proof {
                    lemma_push(self.entries@, id, true);
                }
                self.entries.push((id, true));
                proof {
                    assert(old(self)@.remove(id).insert(id, true) =~= old(self)@.insert(id, true));
                }
            },
            None => {
                proof {
                    lemma_key_absent(self.entries@, id);
                }
            },
        }
    }

    /// Whether the slot for `id` exists and its flag is set.
    pub fn is_cancelled(&self, id: i64) -> (r: bool)
        requires
            self.wf(),
        ensures
            r == (self@.contains_key(id) && self@[id]),
    {
        match self.find_idx(id) {
            Some(i) => {
                proof {
                    lemma_lookup(self.entries@, i as int);
                }
                self.entries[i].1
            },
            None => {
                proof {
                    lemma_key_absent(self.entries@, id);
                }
                false
            },
        }
    }

    /// Whether a slot for `id` exists.
    pub fn contains(&self, id: i64) -> (r: bool)
        requires
            self.wf(),
        ensures
            r == self@.contains_key(id),
    {
        match self.find_idx(id) {
            Some(i) => {
                proof {
                    lemma_lookup(self.entries@, i as int);
                }
                true
            },
            None => {
                proof {
                    lemma_key_absent(self.entries@, id);
                }
                false
            },
        }
    }

    /// Remove the slot for `id`, whatever its state.
    pub fn clear(&mut self, id: i64)
        requires
            old(self).wf(),
        ensures
            final(self)@ == old(self)@.remove(id),
            final(self).wf(),
    {
        self.remove_key(id);
    }
}

/// What signalling does to the registry: the flag is set if the slot exists,
/// and nothing changes otherwise.
pub open spec fn signal_spec(m: Map<i64, bool>, id: i64) -> Map<i64, bool> {
    if m.contains_key(id) {
        m.insert(id, true)
    } else {
        m
    }
}

/// What registering does to the registry: the slot exists with the flag unset,
/// overwriting any prior slot for the same identifier.
pub open spec fn register_spec(m: Map<i64, bool>, id: i64) -> Map<i64, bool> {
    m.insert(id, false)
}

/// Signal the cancellation flag of an in-flight request. A no-op when the
/// identifier is unknown or the request already finished.
pub fn cancel(registry: &mut CancellationRegistry, req_id: i64)
    requires
        old(registry).wf(),
    ensures
        final(registry)@ == signal_spec(old(registry)@, req_id),
        final(registry).wf(),
{
    registry.signal(req_id);
}

/// Terminal state of the worker that drove one transfer.
pub enum WorkerOutcome {
    /// The worker ran to its end and reported this transfer result.
    Completed { result: RelayResult<Response> },
    /// The worker itself failed; no transfer result exists.
    Panicked,
}

/// How a worker's terminal state and the observed cancellation flag determine
/// the caller-visible outcome: a worker failure is a non-cancellable execution
/// error carrying exactly the worker-failure text, so it is never mistaken
/// for a transport outcome; otherwise a set flag forces the cancelled error
/// over whatever the transfer reported; otherwise the transfer result stands.
pub open spec fn outcome_resolution(
    cancelled: bool,
    outcome: WorkerOutcome,
    r: RelayResult<Response>,
) -> bool {
    match outcome {
        WorkerOutcome::Panicked => r matches Err(RelayError::RequestRunError { message })
            && message@ == "Request thread panicked"@,
        WorkerOutcome::Completed { result } => if cancelled {
            r == Err::<Response, RelayError>(RelayError::RequestCancelled)
        } else {
            r == result
        },
    }
}

/// Map a worker's terminal state to the caller-visible outcome.
pub fn resolve_outcome(cancelled: bool, outcome: WorkerOutcome) -> (r: RelayResult<Response>)
    ensures
        outcome_resolution(cancelled, outcome, r),
{
    match outcome {
        WorkerOutcome::Panicked => Err(
            RelayError::RequestRunError { message: "Request thread panicked".to_owned() },
        ),
        WorkerOutcome::Completed { result } => {
            if cancelled {
                Err(RelayError::RequestCancelled)
            } else {
                result
            }
        },
    }
}

/// Determine the outcome of a finished request and release its slot: the
/// flag read at completion decides cancellation, and the slot is removed
/// unconditionally.
pub fn finish_run(registry: &mut CancellationRegistry, id: i64, outcome: WorkerOutcome) -> (r:
    RelayResult<Response>)
    requires
        old(registry).wf(),
    ensures
        final(registry)@ == old(registry)@.remove(id),
        final(registry).wf(),
        outcome_resolution(
            old(registry)@.contains_key(id) && old(registry)@[id],
            outcome,
            r,
        ),
{
    let cancelled = registry.is_cancelled(id);
    let result = resolve_outcome(cancelled, outcome);
    registry.clear(id);
    result
}

/// Cancelling an identifier that was never registered (or whose request has
/// already finished) leaves the registry exactly as it was.
pub proof fn lemma_cancel_unregistered_is_noop(m: Map<i64, bool>, id: i64)
    requires
        !m.contains_key(id),
    ensures
        signal_spec(m, id) == m,
{
}

/// Once a request is registered and then signalled before completion, its
/// flag reads true at completion, so any completed worker outcome resolves to
/// the cancelled error and never to a success.
pub proof fn lemma_signalled_never_success(
    m: Map<i64, bool>,
    id: i64,
    result: RelayResult<Response>,
    r: RelayResult<Response>,
)
    requires
        outcome_resolution(
            {
                let m2 = signal_spec(register_spec(m, id), id);
                m2.contains_key(id) && m2[id]
            },
            WorkerOutcome::Completed { result },
            r,
        ),
    ensures
        r == Err::<Response, RelayError>(RelayError::RequestCancelled),
        !(r matches Ok(_)),
{
}

/// After a finished request releases its slot, that slot is absent from the
/// registry, on every exit path.
pub proof fn lemma_slot_released(m: Map<i64, bool>, id: i64)
    ensures
        !m.remove(id).contains_key(id),
{
}

} // verus!
