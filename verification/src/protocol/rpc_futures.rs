//! The blocking client's table of calls waiting for replies, and the writer's numbering of
//! calls. Once reading replies fails, the table keeps the error and every later call gets it.

use vstd::prelude::*;
use std::collections::HashMap;
use crate::protocol::Error;

verus! {

broadcast use vstd::std_specs::hash::group_hash_axioms;

/// Calls waiting for replies, by id, or the error that ended reading. `V` is what hands a
/// reply to the waiting caller.
pub struct RpcFutures<V>(Result<HashMap<u64, V>, Error>);

impl<V> RpcFutures<V> {
    /// The waiting calls, or the error that ended reading.
    pub closed spec fn state(&self) -> Result<Map<u64, V>, Error> {
        match self.0 {
            Ok(m) => Ok(m@),
            Err(e) => Err(e),
        }
    }

    /// No calls waiting.
    pub fn new() -> (f: RpcFutures<V>)
        ensures
            f.state() == Ok::<Map<u64, V>, Error>(Map::empty()),
    {
        RpcFutures(Ok(HashMap::new()))
    }

    /// Records `tx` as waiting for the reply to call `id`; once reading has failed, the error
    /// is returned instead and nothing changes.
    pub fn insert_tx(&mut self, id: u64, tx: V) -> (res: Result<(), Error>)
        ensures
            match old(self).state() {
                Ok(m) => res is Ok && final(self).state() == Ok::<Map<u64, V>, Error>(
                    m.insert(id, tx),
                ),
                Err(e) => res == Err::<(), Error>(e) && final(self).state() == old(self).state(),
            },
    {
        match &mut self.0 {
            Ok(requests) => {
                requests.insert(id, tx);
                Ok(())
            },
            Err(e) => Err(e.clone()),
        }
    }

    /// Stops waiting for the reply to call `id`; once reading has failed, the error is
    /// returned instead and nothing changes.
    pub fn remove_tx(&mut self, id: u64) -> (res: Result<(), Error>)
        ensures
            match old(self).state() {
                Ok(m) => res is Ok && final(self).state() == Ok::<Map<u64, V>, Error>(
                    m.remove(id),
                ),
                Err(e) => res == Err::<(), Error>(e) && final(self).state() == old(self).state(),
            },
    {
        match &mut self.0 {
            Ok(requests) => {
                requests.remove(&id);
                Ok(())
            },
            Err(e) => Err(e.clone()),
        }
    }

    /// Takes out whatever is waiting for the reply to call `id`, so that the reply can be
    /// handed to it; `None` when nothing waits for that id.
    pub fn complete_reply(&mut self, id: u64) -> (tx: Option<V>)
        requires
            old(self).state() is Ok,
        ensures
            match old(self).state() {
                Ok(m) => {
                    &&& final(self).state() == Ok::<Map<u64, V>, Error>(m.remove(id))
                    &&& tx == if m.contains_key(id) {
                        Some(m[id])
                    } else {
                        None
                    }
                },
                Err(_) => false,
            },
    {
        match &mut self.0 {
            Ok(requests) => requests.remove(&id),
            Err(_) => None,
        }
    }

    /// Records that reading replies failed with `err`; every waiting call is dropped.
    pub fn set_error(&mut self, err: Error)
        ensures
            final(self).state() == Err::<Map<u64, V>, Error>(err),
    {
        self.0 = Err(err);
    }

    /// Whether reading replies has failed.
    pub fn is_err(&self) -> (b: bool)
        ensures
            b == self.state() is Err,
    {
        self.0.is_err()
    }

    /// The error that ended reading.
    pub fn get_error(&self) -> (e: Error)
        requires
            self.state() is Err,
        ensures
            self.state() == Err::<Map<u64, V>, Error>(e),
    {
        match &self.0 {
            Err(e) => e.clone(),
            Ok(_) => Error::ConnectionBroken,
        }
    }
}

/// Numbers the calls of one blocking client.
pub struct Writer {
    next_id: u64,
}

impl Writer {
    /// The id the next call gets.
    pub closed spec fn next_id(&self) -> u64 {
        self.next_id
    }

    /// A writer whose first call gets id 0.
    pub fn new() -> (w: Writer)
        ensures
            w.next_id() == 0,
    {
        Writer { next_id: 0 }
    }

    /// The id the next call gets.
    pub fn current_id(&self) -> (id: u64)
        ensures
            id == self.next_id(),
    {
        self.next_id
    }

    /// Registers `tx` as waiting for the reply to the next call and hands out that call's id.
    /// Once reading has failed, the error is returned with `tx` (so that the caller can be told)
    /// and no id is used up.
    pub fn register<V>(&mut self, futures: &mut RpcFutures<V>, tx: V) -> (res: Result<u64, (Error, V)>)
        requires
            old(self).next_id() < u64::MAX,
        ensures
            match old(futures).state() {
                Ok(m) => {
                    &&& res == Ok::<u64, (Error, V)>(old(self).next_id())
                    &&& final(futures).state() == Ok::<Map<u64, V>, Error>(
                        m.insert(old(self).next_id(), tx),
                    )
                    &&& final(self).next_id() == old(self).next_id() + 1
                },
                Err(e) => {
                    &&& res == Err::<u64, (Error, V)>((e, tx))
                    &&& final(futures).state() == old(futures).state()
                    &&& final(self).next_id() == old(self).next_id()
                },
            },
    {
        if futures.is_err() {
            let e = futures.get_error();
            return Err((e, tx));
        }
        let id = self.next_id;
        let _ = futures.insert_tx(id, tx);
        self.next_id = self.next_id + 1;
        Ok(id)
    }
}

} // verus!
