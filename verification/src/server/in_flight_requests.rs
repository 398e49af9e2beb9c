//! The requests a server channel is working on, by request id. Each entry holds what is needed
//! to clean the request up: aborting its handler, stopping its deadline timer, closing its span.

use vstd::prelude::*;
use std::collections::HashMap;

verus! {

broadcast use vstd::std_specs::hash::group_hash_axioms;

/// Tracks in-flight requests by id. `D` is the per-request clean-up data.
pub struct InFlightRequests<D> {
    request_data: HashMap<u64, D>,
}

/// An error returned when a request attempted to start with the same ID as a request already in
/// flight.
#[derive(Debug)]
pub struct AlreadyExistsError;

impl<D> InFlightRequests<D> {
    /// The in-flight requests, by id.
    pub closed spec fn requests(&self) -> Map<u64, D> {
        self.request_data@
    }

    /// Only finitely many requests are ever in flight.
    pub proof fn lemma_requests_finite(&self)
        ensures
            self.requests().dom().finite(),
    {
        vstd::std_specs::hash::axiom_hashmap_view_finite_dom(self.request_data);
    }

    /// Starting a request that is not in flight adds exactly one to the number in flight; ending
    /// one that is in flight takes exactly one away.
    pub proof fn lemma_start_and_end_count_one(&self, id: u64, data: D)
        ensures
            !self.requests().contains_key(id) ==> self.requests().insert(id, data).len()
                == self.requests().len() + 1,
            self.requests().contains_key(id) ==> self.requests().remove(id).len() + 1
                == self.requests().len(),
    {
        self.lemma_requests_finite();
    }

    /// No requests in flight.
    pub fn new() -> (r: InFlightRequests<D>)
        ensures
            r.requests() == Map::<u64, D>::empty(),
    {
        InFlightRequests { request_data: HashMap::new() }
    }

    /// Returns the number of in-flight requests.
    pub fn len(&self) -> (n: usize)
        ensures
            self.requests().dom().finite(),
            n == self.requests().len(),
    {
        proof {
            vstd::std_specs::hash::axiom_hashmap_view_finite_dom(self.request_data);
        }
        self.request_data.len()
    }

    /// Whether request `request_id` is in flight.
    pub fn contains(&self, request_id: u64) -> (b: bool)
        ensures
            b == self.requests().contains_key(request_id),
    {
        self.request_data.contains_key(&request_id)
    }

    /// Starts a request, unless a request with the same ID is already in flight; in that case
    /// nothing changes and `data` is handed back.
    pub fn start_request(&mut self, request_id: u64, data: D) -> (res: Result<(), (AlreadyExistsError, D)>)
        ensures
            old(self).requests().contains_key(request_id) ==> {
                &&& res matches Err((_, d)) && d == data
                &&& final(self).requests() == old(self).requests()
            },
            !old(self).requests().contains_key(request_id) ==> {
                &&& res is Ok
                &&& final(self).requests() == old(self).requests().insert(request_id, data)
            },
    {
        if self.request_data.contains_key(&request_id) {
            Err((AlreadyExistsError, data))
        } else {
            self.request_data.insert(request_id, data);
            Ok(())
        }
    }

    /// Cancels an in-flight request, handing back its data so that its handler can be aborted;
    /// `None` when no such request is in flight.
    pub fn cancel_request(&mut self, request_id: u64) -> (d: Option<D>)
        ensures
            final(self).requests() == old(self).requests().remove(request_id),
            old(self).requests().contains_key(request_id) ==> d == Some(
                old(self).requests()[request_id],
            ),
            !old(self).requests().contains_key(request_id) ==> d is None,
    {
        self.request_data.remove(&request_id)
    }

    /// Removes a request without aborting it, for example when its response is being sent.
    pub fn remove_request(&mut self, request_id: u64) -> (d: Option<D>)
        ensures
            final(self).requests() == old(self).requests().remove(request_id),
            old(self).requests().contains_key(request_id) ==> d == Some(
                old(self).requests()[request_id],
            ),
            !old(self).requests().contains_key(request_id) ==> d is None,
    {
        self.request_data.remove(&request_id)
    }

    /// Handles the expiry of request `request_id`'s deadline: the request is removed and its
    /// data handed back so that its handler can be aborted.
    pub fn expire(&mut self, request_id: u64) -> (d: Option<D>)
        ensures
            final(self).requests() == old(self).requests().remove(request_id),
            old(self).requests().contains_key(request_id) ==> d == Some(
                old(self).requests()[request_id],
            ),
            !old(self).requests().contains_key(request_id) ==> d is None,
    {
        self.request_data.remove(&request_id)
    }
}

/// Starting a request that is not in flight puts it in flight with its data, and ending it
/// again (by cancelling, removing or expiring it, which all remove the id) hands that data back
/// and leaves the table exactly as it was before the start.
pub proof fn lemma_start_then_end<D>(m: Map<u64, D>, id: u64, data: D)
    requires
        !m.contains_key(id),
    ensures
        m.insert(id, data).contains_key(id),
        m.insert(id, data)[id] == data,
        m.insert(id, data).remove(id) == m,
        !m.insert(id, data).remove(id).contains_key(id),
{
    assert(m.insert(id, data).remove(id) =~= m);
}

} // verus!
