//! The work that one extension worker has been asked to do, and the order in
//! which it takes that work.
use std::collections::VecDeque;

use vstd::prelude::*;

verus! {

/// Most action invocations waiting for one worker.
pub const MAX_PENDING_INVOCATIONS: usize = 16;
/// Most settings updates waiting for one worker.
pub const MAX_PENDING_SETTINGS: usize = 4;

/// The latest search text sent to one extension.
#[derive(Debug, Clone)]
pub struct ExtensionSearchQuery {
    pub generation: u64,
    pub query: String,
}

/// A request to rebuild an extension's index.
#[derive(Debug, Clone, Copy, PartialEq, Eq, Structural)]
pub struct ExtensionRefresh {
    pub generation: u64,
}

/// One action the user asked an extension to run.
#[derive(Debug, Clone)]
pub struct ExtensionInvocation {
    pub invocation_id: u64,
    pub generation: u64,
    pub entry_id: String,
    pub action_id: String,
    pub query_context: String,
}

/// One serialized settings mutation for an extension process.
#[derive(Debug, Clone)]
pub struct ExtensionSettingsUpdate<S> {
    pub request_id: String,
    pub updates: S,
}

/// One unit of work handed to the extension process.
#[derive(Debug)]
pub enum ExtensionWork<S> {
    Query(ExtensionSearchQuery),
    Invoke(ExtensionInvocation),
    Refresh(ExtensionRefresh),
    UpdateSettings(ExtensionSettingsUpdate<S>),
}

/// Requests that one extension worker has not taken yet.
#[derive(Debug)]
pub struct ExtensionSearchState<S> {
    query: Option<ExtensionSearchQuery>,
    refresh: Option<ExtensionRefresh>,
    invocations: VecDeque<ExtensionInvocation>,
    active_invocation_id: Option<u64>,
    cancelled_invocations: Vec<u64>,
    settings: VecDeque<ExtensionSettingsUpdate<S>>,
    shutdown: bool,
}

impl<S> ExtensionSearchState<S> {
    /// The pending search, if any; a newer search replaces it.
    pub closed spec fn pending_query(&self) -> Option<ExtensionSearchQuery> {
        self.query
    }

    /// The pending refresh, if any; a newer refresh replaces it.
    pub closed spec fn pending_refresh(&self) -> Option<ExtensionRefresh> {
        self.refresh
    }

    /// Invocations waiting to run, oldest first.
    pub closed spec fn pending_invocations(&self) -> Seq<ExtensionInvocation> {
        self.invocations@
    }

    /// The invocation that the worker is running, if any.
    pub closed spec fn active_invocation(&self) -> Option<u64> {
        self.active_invocation_id
    }

    /// Identifiers of invocations that the user asked to cancel.
    pub closed spec fn cancelled(&self) -> Set<u64> {
        self.cancelled_invocations@.to_set()
    }

    /// Settings updates waiting to run, oldest first.
    pub closed spec fn pending_settings(&self) -> Seq<ExtensionSettingsUpdate<S>> {
        self.settings@
    }

    /// Whether the worker was asked to stop.
    pub closed spec fn stopping(&self) -> bool {
        self.shutdown
    }

    /// The queues stay within their bounds and cancellations are not repeated.
    pub closed spec fn wf(&self) -> bool {
        &&& self.invocations@.len() <= MAX_PENDING_INVOCATIONS
        &&& self.settings@.len() <= MAX_PENDING_SETTINGS
        &&& self.cancelled_invocations@.no_duplicates()
    }

    /// Some work is waiting, or the worker was asked to stop.
    pub open spec fn ready(&self) -> bool {
        self.pending_query() is Some || self.pending_refresh() is Some
            || self.pending_invocations().len() > 0 || self.pending_settings().len() > 0
            || self.stopping()
    }

    /// Nothing is waiting and nothing runs.
    pub fn new() -> (state: Self)
        ensures
            state.wf(),
            state.pending_query() is None,
            state.pending_refresh() is None,
            state.pending_invocations() == Seq::<ExtensionInvocation>::empty(),
            state.active_invocation() is None,
            state.cancelled() == Set::<u64>::empty(),
            state.pending_settings() == Seq::<ExtensionSettingsUpdate<S>>::empty(),
            !state.stopping(),
    {
        let state = ExtensionSearchState {
            query: None,
            refresh: None,
            invocations: VecDeque::new(),
            active_invocation_id: None,
            cancelled_invocations: Vec::new(),
            settings: VecDeque::new(),
            shutdown: false,
        };
        assert(state.cancelled() =~= Set::<u64>::empty());
        state
    }

    /// Replace any pending search with `query` for `generation`.
    pub fn query(&mut self, generation: u64, query: String)
        requires
            old(self).wf(),
        ensures
            final(self).wf(),
            final(self).pending_query() == Some(ExtensionSearchQuery { generation, query }),
            final(self).pending_refresh() == old(self).pending_refresh(),
            final(self).pending_invocations() == old(self).pending_invocations(),
            final(self).active_invocation() == old(self).active_invocation(),
            final(self).cancelled() == old(self).cancelled(),
            final(self).pending_settings() == old(self).pending_settings(),
            final(self).stopping() == old(self).stopping(),
    {
        self.query = Some(ExtensionSearchQuery { generation, query });
    }

    /// Replace any pending refresh with one for `generation`.
    pub fn refresh(&mut self, generation: u64)
        requires
            old(self).wf(),
        ensures
            final(self).wf(),
            final(self).pending_query() == old(self).pending_query(),
            final(self).pending_refresh() == Some(ExtensionRefresh { generation }),
            final(self).pending_invocations() == old(self).pending_invocations(),
            final(self).active_invocation() == old(self).active_invocation(),
            final(self).cancelled() == old(self).cancelled(),
            final(self).pending_settings() == old(self).pending_settings(),
            final(self).stopping() == old(self).stopping(),
    {
        self.refresh = Some(ExtensionRefresh { generation });
    }

    /// Queue `invocation` behind the others; refused when the queue is full.
    pub fn invoke(&mut self, invocation: ExtensionInvocation) -> (queued: bool)
        requires
            old(self).wf(),
        ensures
            final(self).wf(),
            queued == (old(self).pending_invocations().len() < MAX_PENDING_INVOCATIONS),
            final(self).pending_invocations() == if queued {
                old(self).pending_invocations().push(invocation)
            } else {
                old(self).pending_invocations()
            },
            final(self).pending_query() == old(self).pending_query(),
            final(self).pending_refresh() == old(self).pending_refresh(),
            final(self).active_invocation() == old(self).active_invocation(),
            final(self).cancelled() == old(self).cancelled(),
            final(self).pending_settings() == old(self).pending_settings(),
            final(self).stopping() == old(self).stopping(),
    {
        if self.invocations.len() >= MAX_PENDING_INVOCATIONS {
            return false;
        }
        self.invocations.push_back(invocation);
        true
    }

    /// Queue a settings update behind the others; refused when the queue is full.
    pub fn update_settings(&mut self, update: ExtensionSettingsUpdate<S>) -> (queued: bool)
        requires
            old(self).wf(),
        ensures
            final(self).wf(),
            queued == (old(self).pending_settings().len() < MAX_PENDING_SETTINGS),
            final(self).pending_settings() == if queued {
                old(self).pending_settings().push(update)
            } else {
                old(self).pending_settings()
            },
            final(self).pending_query() == old(self).pending_query(),
            final(self).pending_refresh() == old(self).pending_refresh(),
            final(self).pending_invocations() == old(self).pending_invocations(),
            final(self).active_invocation() == old(self).active_invocation(),
            final(self).cancelled() == old(self).cancelled(),
            final(self).stopping() == old(self).stopping(),
    {
        if self.settings.len() >= MAX_PENDING_SETTINGS {
            return false;
        }
        self.settings.push_back(update);
        true
    }

    fn cancelled_position(&self, invocation_id: u64) -> (found: Option<usize>)
        ensures
            match found {
                Some(i) => i < self.cancelled_invocations@.len()
                    && self.cancelled_invocations@[i as int] == invocation_id,
                None => !self.cancelled_invocations@.contains(invocation_id),
            },
    {
        let n = self.cancelled_invocations.len();
        for i in 0..n
            invariant
                n == self.cancelled_invocations@.len(),
                forall|j: int| 0 <= j < i ==> self.cancelled_invocations@[j] != invocation_id,
        {
            if self.cancelled_invocations[i] == invocation_id {
                return Some(i);
            }
        }
        None
    }

    fn is_pending_invocation(&self, invocation_id: u64) -> (found: bool)
        ensures
            found == exists|i: int|
                0 <= i < self.invocations@.len() && #[trigger] self.invocations@[i].invocation_id
                    == invocation_id,
    {
        let n = self.invocations.len();
        for i in 0..n
            invariant
                n == self.invocations@.len(),
                forall|j: int|
                    0 <= j < i ==> #[trigger] self.invocations@[j].invocation_id != invocation_id,
        {
            if self.invocations[i].invocation_id == invocation_id {
                return true;
            }
        }
        false
    }

    /// Mark `invocation_id` as cancelled when it runs or waits; returns
    /// whether it did.
    pub fn cancel_invocation(&mut self, invocation_id: u64) -> (known: bool)
        requires
            old(self).wf(),
        ensures
            final(self).wf(),
            known == (old(self).active_invocation() == Some(invocation_id) || exists|i: int|
                0 <= i < old(self).pending_invocations().len()
                    && #[trigger] old(self).pending_invocations()[i].invocation_id == invocation_id),
            final(self).cancelled() == if known {
                old(self).cancelled().insert(invocation_id)
            } else {
                old(self).cancelled()
            },
            final(self).pending_query() == old(self).pending_query(),
            final(self).pending_refresh() == old(self).pending_refresh(),
            final(self).pending_invocations() == old(self).pending_invocations(),
            final(self).active_invocation() == old(self).active_invocation(),
            final(self).pending_settings() == old(self).pending_settings(),
            final(self).stopping() == old(self).stopping(),
    {
        let active = match self.active_invocation_id {
            Some(id) => id == invocation_id,
            None => false,
        };
        let pending = if active {
            true
        } else {
            self.is_pending_invocation(invocation_id)
        };
        proof {
            if !active && pending {
                let i = choose|i: int|
                    0 <= i < self.invocations@.len() && #[trigger] self.invocations@[i].invocation_id
                        == invocation_id;
                assert(self.pending_invocations()[i].invocation_id == invocation_id);
            }
            if !pending {
                assert forall|i: int| 0 <= i < self.pending_invocations().len() implies #[trigger] self.pending_invocations()[i].invocation_id != invocation_id by {
                    assert(self.invocations@[i].invocation_id != invocation_id);
                }
            }
        }
        if !pending {
            return false;
        }
        let ghost before = self.cancelled_invocations@;
        match self.cancelled_position(invocation_id) {
            Some(_) => {
                proof {
                    assert(before.to_set().insert(invocation_id) =~= before.to_set());
                }
            },
            None => {
                self.cancelled_invocations.push(invocation_id);
                proof {
                    let after = self.cancelled_invocations@;
                    assert(after =~= before.push(invocation_id));
                    assert forall|x: u64| #[trigger] after.to_set().contains(x) <==> before.to_set().insert(
                        invocation_id,
                    ).contains(x) by {
                        if x == invocation_id {
                            assert(after[before.len() as int] == x);
                        }
                        if after.contains(x) && x != invocation_id {
                            let k = choose|k: int| 0 <= k < after.len() && after[k] == x;
                            assert(before[k] == x);
                        }
                        if before.contains(x) {
                            let k = choose|k: int| 0 <= k < before.len() && before[k] == x;
                            assert(after[k] == x);
                        }
                    }
                    assert(after.to_set() =~= before.to_set().insert(invocation_id));
                    assert forall|a: int, b: int|
                        0 <= a < b < self.cancelled_invocations@.len() implies
                        self.cancelled_invocations@[a] != self.cancelled_invocations@[b] by {
                        if b == before.len() {
                            assert(before[a] == self.cancelled_invocations@[a]);
                        }
                    }
                }
            },
        }
        true
    }

    /// Ask the worker to stop before taking more work.
    pub fn request_stop(&mut self)
        requires
            old(self).wf(),
        ensures
            final(self).wf(),
            final(self).stopping(),
            final(self).pending_query() == old(self).pending_query(),
            final(self).pending_refresh() == old(self).pending_refresh(),
            final(self).pending_invocations() == old(self).pending_invocations(),
            final(self).active_invocation() == old(self).active_invocation(),
            final(self).cancelled() == old(self).cancelled(),
            final(self).pending_settings() == old(self).pending_settings(),
    {
        self.shutdown = true;
    }

    /// Whether some work waits or the worker was asked to stop.
    pub fn has_work(&self) -> (r: bool)
        ensures
            r == self.ready(),
    {
        self.query.is_some() || self.refresh.is_some() || self.invocations.len() > 0
            || self.settings.len() > 0 || self.shutdown
    }

    /// Take the next unit of work: nothing once stopping; otherwise the
    /// oldest invocation (which becomes the active one), else the oldest
    /// settings update, else the pending search, else the pending refresh.
    pub fn next_work(&mut self) -> (work: Option<ExtensionWork<S>>)
        requires
            old(self).wf(),
        ensures
            final(self).wf(),
            final(self).cancelled() == old(self).cancelled(),
            final(self).stopping() == old(self).stopping(),
            old(self).stopping() ==> work is None && final(self).pending_query()
                == old(self).pending_query() && final(self).pending_refresh()
                == old(self).pending_refresh() && final(self).pending_invocations()
                == old(self).pending_invocations() && final(self).active_invocation()
                == old(self).active_invocation() && final(self).pending_settings()
                == old(self).pending_settings(),
            !old(self).stopping() && old(self).pending_invocations().len() > 0 ==> {
                &&& work == Some(ExtensionWork::<S>::Invoke(old(self).pending_invocations()[0]))
                &&& final(self).pending_invocations() == old(self).pending_invocations().drop_first()
                &&& final(self).active_invocation() == Some(
                    old(self).pending_invocations()[0].invocation_id,
                )
                &&& final(self).pending_settings() == old(self).pending_settings()
                &&& final(self).pending_query() == old(self).pending_query()
                &&& final(self).pending_refresh() == old(self).pending_refresh()
            },
            !old(self).stopping() && old(self).pending_invocations().len() == 0
                && old(self).pending_settings().len() > 0 ==> {
                &&& work == Some(ExtensionWork::UpdateSettings(old(self).pending_settings()[0]))
                &&& final(self).pending_settings() == old(self).pending_settings().drop_first()
                &&& final(self).pending_invocations() == old(self).pending_invocations()
                &&& final(self).active_invocation() == old(self).active_invocation()
                &&& final(self).pending_query() == old(self).pending_query()
                &&& final(self).pending_refresh() == old(self).pending_refresh()
            },
            !old(self).stopping() && old(self).pending_invocations().len() == 0
                && old(self).pending_settings().len() == 0 && old(self).pending_query() is Some
                ==> {
                &&& work == Some(ExtensionWork::<S>::Query(old(self).pending_query()->0))
                &&& final(self).pending_query() is None
                &&& final(self).pending_refresh() == old(self).pending_refresh()
                &&& final(self).pending_invocations() == old(self).pending_invocations()
                &&& final(self).active_invocation() == old(self).active_invocation()
                &&& final(self).pending_settings() == old(self).pending_settings()
            },
            !old(self).stopping() && old(self).pending_invocations().len() == 0
                && old(self).pending_settings().len() == 0 && old(self).pending_query() is None
                ==> {
                &&& work == match old(self).pending_refresh() {
                    Some(r) => Some(ExtensionWork::<S>::Refresh(r)),
                    None => None,
                }
                &&& final(self).pending_refresh() is None
                &&& final(self).pending_query() is None
                &&& final(self).pending_invocations() == old(self).pending_invocations()
                &&& final(self).active_invocation() == old(self).active_invocation()
                &&& final(self).pending_settings() == old(self).pending_settings()
            },
    {
        if self.shutdown {
            return None;
        }
        if let Some(invocation) = self.invocations.pop_front() {
            self.active_invocation_id = Some(invocation.invocation_id);
            return Some(ExtensionWork::Invoke(invocation));
        }
        if let Some(update) = self.settings.pop_front() {
            return Some(ExtensionWork::UpdateSettings(update));
        }
        if let Some(query) = self.query.take() {
            return Some(ExtensionWork::Query(query));
        }
        match self.refresh.take() {
            Some(refresh) => Some(ExtensionWork::Refresh(refresh)),
            None => None,
        }
    }

    /// Whether a running search should give way: the worker stops, a newer
    /// search waits, or an invocation waits.
    pub fn query_superseded(&self) -> (r: bool)
        ensures
            r == (self.stopping() || self.pending_query() is Some
                || self.pending_invocations().len() > 0),
    {
        self.shutdown || self.query.is_some() || self.invocations.len() > 0
    }

    /// Whether a running refresh should give way: as for a search, or a newer
    /// refresh waits.
    pub fn refresh_superseded(&self) -> (r: bool)
        ensures
            r == (self.stopping() || self.pending_query() is Some
                || self.pending_invocations().len() > 0 || self.pending_refresh() is Some),
    {
        self.shutdown || self.query.is_some() || self.invocations.len() > 0
            || self.refresh.is_some()
    }

    /// Whether the running invocation `invocation_id` should stop: the
    /// worker stops or the user cancelled it.
    pub fn invocation_cancelled(&self, invocation_id: u64) -> (r: bool)
        ensures
            r == (self.stopping() || self.cancelled().contains(invocation_id)),
    {
        if self.shutdown {
            return true;
        }
        let found = self.cancelled_position(invocation_id);
        proof {
            if found is Some {
                assert(self.cancelled_invocations@.contains(invocation_id));
            }
        }
        found.is_some()
    }

    /// Close the running invocation `invocation_id`: it is no longer active
    /// nor marked as cancelled. Returns whether the worker is stopping and
    /// whether the user had cancelled it.
    pub fn finish_invocation(&mut self, invocation_id: u64) -> (r: (bool, bool))
        requires
            old(self).wf(),
        ensures
            final(self).wf(),
            r.0 == old(self).stopping(),
            r.1 == old(self).cancelled().contains(invocation_id),
            final(self).active_invocation() is None,
            final(self).cancelled() == old(self).cancelled().remove(invocation_id),
            final(self).pending_query() == old(self).pending_query(),
            final(self).pending_refresh() == old(self).pending_refresh(),
            final(self).pending_invocations() == old(self).pending_invocations(),
            final(self).pending_settings() == old(self).pending_settings(),
            final(self).stopping() == old(self).stopping(),
    {
        let ghost before = self.cancelled_invocations@;
        let user_cancelled = match self.cancelled_position(invocation_id) {
            Some(i) => {
                self.cancelled_invocations.remove(i);
                proof {
                    let after = self.cancelled_invocations@;
                    assert(after =~= before.remove(i as int));
                    assert forall|a: int, b: int| 0 <= a < b < after.len() implies after[a]
                        != after[b] by {
                        if a < i && b >= i {
                            assert(after[b] == before[b + 1]);
                        } else if a >= i {
                            assert(after[a] == before[a + 1] && after[b] == before[b + 1]);
                        }
                    }
                    assert forall|x: u64| #[trigger] after.to_set().contains(x) <==> before.to_set().remove(
                        invocation_id,
                    ).contains(x) by {
                        if after.contains(x) {
                            let k = choose|k: int| 0 <= k < after.len() && after[k] == x;
                            if k < i {
                                assert(before[k] == x);
                            } else {
                                assert(before[k + 1] == x);
                                assert(k + 1 != i);
                            }
                        }
                        if before.contains(x) && x != invocation_id {
                            let k = choose|k: int| 0 <= k < before.len() && before[k] == x;
                            if k < i {
                                assert(after[k] == x);
                            } else {
                                assert(k != i);
                                assert(after[k - 1] == x);
                            }
                        }
                    }
                    assert(after.to_set() =~= before.to_set().remove(invocation_id));
                }
                true
            },
            None => {
                proof {
                    assert(before.to_set().remove(invocation_id) =~= before.to_set());
                }
                false
            },
        };
        self.active_invocation_id = None;
        (self.shutdown, user_cancelled)
    }
}

impl<S> Default for ExtensionSearchState<S> {
    fn default() -> (state: Self)
        ensures
            state.wf(),
            state.pending_query() is None,
            state.pending_refresh() is None,
            state.pending_invocations() == Seq::<ExtensionInvocation>::empty(),
            state.active_invocation() is None,
            state.cancelled() == Set::<u64>::empty(),
            state.pending_settings() == Seq::<ExtensionSettingsUpdate<S>>::empty(),
            !state.stopping(),
    {
        ExtensionSearchState::new()
    }
}

} // verus!
