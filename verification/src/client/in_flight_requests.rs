//! Requests already written to the wire that haven't yet received responses, by request id.
//! Each entry holds what completing the request needs: its context, span, deadline timer and
//! the channel to its caller.

use vstd::prelude::*;
use std::collections::HashMap;
use crate::util::map_keys;

verus! {

broadcast use vstd::std_specs::hash::group_hash_axioms;

/// Requests awaiting responses. `D` is the per-request data.
pub struct InFlightRequests<D> {
    request_data: HashMap<u64, D>,
}

/// An error returned when an attempt is made to insert a request with an ID that is already in
/// use.
#[derive(Debug)]
pub struct AlreadyExistsError;

impl<D> InFlightRequests<D> {
    /// The requests awaiting responses, by id.
    pub closed spec fn requests(&self) -> Map<u64, D> {
        self.request_data@
    }

    /// No requests in flight.
    pub fn new() -> (r: InFlightRequests<D>)
        ensures
            r.requests() == Map::<u64, D>::empty(),
    {
        InFlightRequests { request_data: HashMap::new() }
    }

    /// Returns the number of in-flight requests.
    pub fn len(&self) -> (n: usize)
        ensures
            n == self.requests().len(),
    {
        proof {
            vstd::std_specs::hash::axiom_hashmap_view_finite_dom(self.request_data);
        }
        self.request_data.len()
    }

    /// Returns true iff there are no requests in flight.
    pub fn is_empty(&self) -> (b: bool)
        ensures
            b == (self.requests().len() == 0),
    {
        proof {
            vstd::std_specs::hash::axiom_hashmap_view_finite_dom(self.request_data);
        }
        self.request_data.is_empty()
    }

    /// Starts a request, unless a request with the same ID is already in flight; in that case
    /// nothing changes and `data` is handed back.
    pub fn insert_request(&mut self, request_id: u64, data: D) -> (res: Result<(), (AlreadyExistsError, D)>)
        ensures
            old(self).requests().contains_key(request_id) ==> {
                &&& res matches Err((_, d)) && d == data
                &&& final(self).requests() == old(self).requests()
            },
            !old(self).requests().contains_key(request_id) ==> {
                &&& res is Ok
                &&& final(self).requests() == old(self).requests().insert(request_id, data)
            },
    {
        if self.request_data.contains_key(&request_id) {
            Err((AlreadyExistsError, data))
        } else {
            self.request_data.insert(request_id, data);
            Ok(())
        }
    }

    /// Removes a request that got its response, handing back its data so that the response
    /// can be delivered; `None` when the request is not (or no longer) in flight.
    pub fn complete_request(&mut self, request_id: u64) -> (d: Option<D>)
        ensures
            final(self).requests() == old(self).requests().remove(request_id),
            d == if old(self).requests().contains_key(request_id) {
                Some(old(self).requests()[request_id])
            } else {
                None
            },
    {
        self.request_data.remove(&request_id)
    }

    /// Removes every request, handing back the data of each so that all can be completed.
    pub fn complete_all_requests(&mut self) -> (all: Vec<D>)
        ensures
            final(self).requests() == Map::<u64, D>::empty(),
            exists|ids: Seq<u64>|
                {
                    &&& ids.no_duplicates()
                    &&& ids.to_set() == old(self).requests().dom()
                    &&& all@.len() == ids.len()
                    &&& forall|i: int|
                        0 <= i < ids.len() ==> all@[i] == old(self).requests()[#[trigger] ids[i]]
                },
    {
        let ids = map_keys(&self.request_data);
        let ghost old_data = self.request_data@;
        let mut all: Vec<D> = Vec::new();
        let mut i: usize = 0;
        while i < ids.len()
            invariant
                0 <= i <= ids@.len(),
                ids@.no_duplicates(),
                ids@.to_set() == old_data.dom(),
                all@.len() == i,
                forall|j: int| 0 <= j < i ==> all@[j] == old_data[#[trigger] ids@[j]],
                forall|j: int|
                    i <= j < ids@.len() ==> self.request_data@.contains_key(#[trigger] ids@[j]),
                self.request_data@.dom() == old_data.dom().difference(
                    ids@.take(i as int).to_set(),
                ),
                forall|k: u64| #[trigger]
                    self.request_data@.contains_key(k) ==> self.request_data@[k] == old_data[k],
            decreases ids@.len() - i,
        {
            let id = ids[i];
            assert(ids@.take(i as int).to_set().insert(id) =~= ids@.take(i + 1).to_set()) by {
                assert(ids@.take(i + 1) =~= ids@.take(i as int).push(id));
                ids@.take(i as int).lemma_push_to_set_commute(id);
            }
            assert(forall|j: int| i < j < ids@.len() ==> ids@[j] != id);
            let d = self.request_data.remove(&id);
            all.push(d.unwrap());
            i = i + 1;
        }
        proof {
            assert(ids@.take(ids@.len() as int) =~= ids@);
            assert(self.request_data@.dom() =~= Set::<u64>::empty());
            assert(self.request_data@ =~= Map::<u64, D>::empty());
        }
        all
    }

    /// Cancels a request without completing it (its caller went away), handing back its data;
    /// `None` when the request is not in flight.
    pub fn cancel_request(&mut self, request_id: u64) -> (d: Option<D>)
        ensures
            final(self).requests() == old(self).requests().remove(request_id),
            d == if old(self).requests().contains_key(request_id) {
                Some(old(self).requests()[request_id])
            } else {
                None
            },
    {
        self.request_data.remove(&request_id)
    }

    /// Handles the expiry of a request's deadline: the request is removed and its data handed
    /// back so that its caller can be told it timed out.
    pub fn expire(&mut self, request_id: u64) -> (d: Option<D>)
        ensures
            final(self).requests() == old(self).requests().remove(request_id),
            d == if old(self).requests().contains_key(request_id) {
                Some(old(self).requests()[request_id])
            } else {
                None
            },
    {
        self.request_data.remove(&request_id)
    }
}

} // verus!
