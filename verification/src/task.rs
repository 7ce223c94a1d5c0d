//! Tasks that focus sessions are spent on.
use vstd::prelude::*;

use crate::clock::local_now;
use crate::time::Timestamp;

verus! {

#[derive(Clone, Debug)]
pub struct Task {
    pub title: String,
    pub tag: String,
    pub created_at: Timestamp,
    pub done: bool,
}

impl Task {
    /// A task, not done, made at `now`; without a tag it is tagged `custom`.
    pub fn new_at(title: String, tag: Option<String>, now: Timestamp) -> (t: Self)
        ensures
            t.title@ == title@,
            t.tag@ == match tag {
                Some(g) => g@,
                None => "custom"@,
            },
            t.created_at == now,
            !t.done,
    {
        let tag = match tag {
            Some(g) => g,
            None => String::from_str("custom"),
        };
        Task { title, tag, created_at: now, done: false }
    }

    /// A task, not done, made now; without a tag it is tagged `custom`.
    pub fn new(title: String, tag: Option<String>) -> (t: Self)
        ensures
            t.title@ == title@,
            t.tag@ == match tag {
                Some(g) => g@,
                None => "custom"@,
            },
            t.created_at.wf(),
            !t.done,
    {
        Self::new_at(title, tag, local_now())
    }
}

} // verus!
