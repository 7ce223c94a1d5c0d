//! A finished session as it is recorded.
use vstd::prelude::*;

use crate::time::Timestamp;

verus! {

#[derive(Clone, Debug)]
pub struct SessionRecord {
    pub started_at: Timestamp,
    pub ended_at: Timestamp,
    pub planned_seconds: u64,
    pub actual_seconds: u64,
    pub session_type: String,
    pub task: Option<String>,
    pub tags: Vec<String>,
    pub completed: bool,
    pub profile: String,
    pub theme: Option<String>,
    pub energy: Option<u8>,
    pub mood: Option<String>,
    pub intention: Option<String>,
    pub note: Option<String>,
}

} // verus!
