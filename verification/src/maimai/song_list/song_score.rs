use vstd::prelude::*;

use crate::maimai::parser::song_score::ScoreEntry;

verus! {

/// The entries of the score list under one heading.
#[derive(Clone, Debug)]
pub struct EntryGroup {
    pub label: String,
    pub entries: Vec<ScoreEntry>,
}

impl Default for EntryGroup {
    fn default() -> (r: EntryGroup)
        ensures
            r.label@ == Seq::<char>::empty(),
            r.entries@ == Seq::<ScoreEntry>::empty(),
    {
        EntryGroup { label: String::new(), entries: Vec::new() }
    }
}

} // verus!
