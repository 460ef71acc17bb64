use vstd::prelude::*;

use crate::maimai::rating::ScoreLevel;
use crate::maimai::schema::latest::{ScoreDifficulty, SongName};

verus! {

/// A song of a record list: its name and level.
#[derive(Clone, Debug)]
pub struct Score {
    pub song_name: SongName,
    pub level: ScoreLevel,
}

/// The record list of one difficulty.
#[derive(Clone, Debug)]
pub struct SongRecordList {
    pub difficulty: ScoreDifficulty,
    pub scores: Vec<Score>,
}

} // verus!
