//! Notes taken during sessions.
use vstd::prelude::*;

use crate::clock::local_now;
use crate::time::Timestamp;

verus! {

#[derive(Clone, Debug)]
pub struct Note {
    pub id: u64,
    pub body: String,
    pub completed: bool,
    pub created_at: Timestamp,
    pub updated_at: Timestamp,
}

impl Note {
    /// An open note made and last changed at `now`.
    pub fn new_at(id: u64, body: String, now: Timestamp) -> (n: Self)
        ensures
            n.id == id,
            n.body@ == body@,
            !n.completed,
            n.created_at == now,
            n.updated_at == now,
    {
        Note { id, body, completed: false, created_at: now, updated_at: now }
    }

    /// An open note made now.
    pub fn new(id: u64, body: String) -> (n: Self)
        ensures
            n.id == id,
            n.body@ == body@,
            !n.completed,
            n.created_at == n.updated_at,
            n.created_at.wf(),
    {
        Self::new_at(id, body, local_now())
    }
}

} // verus!
