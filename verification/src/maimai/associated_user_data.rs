use vstd::prelude::*;

use crate::maimai::parser::rating_target;
use crate::maimai::parser::song_score::ScoreIdx;
use crate::maimai::schema::latest::{
    utage_kind_kanji, version_of_time, PlayRecord as SchemaPlayRecord, PlayTime, ScoreDifficulty,
    ScoreGeneration, SongIcon, UtageKindRaw,
};
use crate::maimai::song_list::database::{
    has_icon, is_version_chart, song_id, refs_named, score_exists_in, score_of, scores_of, DatabaseError,
    OrdinaryScoreForVersionRef, ScoreForVersionRef, SongDatabase, SongRef, UtageScoreRef,
};
use crate::maimai::song_list::UtageScore;
use crate::maimai::version::MaimaiVersion;
use crate::text::str_eq;

verus! {

/// Why a record or a rating target entry could not be tied to a chart.
#[derive(Clone, Copy, PartialEq, Eq, Structural, Debug)]
pub enum AssociationError {
    /// No song has the cover art.
    NoSongForIcon,
    /// The record's utage kind does not name exactly one utage chart of the
    /// song: the number that it names.
    UtageNotUnique(usize),
    /// The time lies in no version.
    NoVersion,
    /// The song has no charts of the generation.
    NoGeneration(ScoreGeneration),
    /// The song has no chart of the difficulty.
    NoDifficulty(ScoreDifficulty),
    /// The chart does not exist in the version of the time.
    NotInVersion,
    /// The name names several songs, and the entry's id is not in the map
    /// of ids to cover arts.
    IdxNotRegistered,
}

/// The chart (`k`, generation, difficulty) for `version`: what a lookup by
/// generation, difficulty and version gives for song `k`.
pub open spec fn chart_lookup<'s>(
    db: SongDatabase<'s>,
    k: int,
    g: ScoreGeneration,
    d: ScoreDifficulty,
    version: MaimaiVersion,
    r: Result<OrdinaryScoreForVersionRef<'s>, AssociationError>,
) -> bool {
    let song = db.source_spec()[k];
    match scores_of(song, g) {
        None => r == Err::<OrdinaryScoreForVersionRef<'s>, AssociationError>(AssociationError::NoGeneration(g)),
        Some(scores) => match score_of(scores, d) {
            None => r == Err::<OrdinaryScoreForVersionRef<'s>, AssociationError>(AssociationError::NoDifficulty(d)),
            Some(_) => if score_exists_in(song, scores, version) {
                r matches Ok(v) && is_version_chart(db.refs_spec(), db.source_spec(), v, version, k, g, d)
            } else {
                r == Err::<OrdinaryScoreForVersionRef<'s>, AssociationError>(AssociationError::NotInVersion)
            },
        },
    }
}

/// Looks up chart (`song`, `g`, `d`) for `version`.
fn lookup_chart<'s>(
    db: &SongDatabase<'s>,
    song: SongRef<'s>,
    g: ScoreGeneration,
    d: ScoreDifficulty,
    version: MaimaiVersion,
) -> (r: Result<OrdinaryScoreForVersionRef<'s>, AssociationError>)
    requires
        song.index_spec() < db.refs_spec().len(),
        song == db.refs_spec()[song.index_spec() as int],
        song.song_spec() == db.source_spec()[song.index_spec() as int],
        song.id_spec() == song_id(db.source_spec(), song.index_spec() as int),
    ensures
        chart_lookup(*db, song.index_spec() as int, g, d, version, r),
{
    let scores = match song.scores(g) {
        Some(x) => x,
        None => {
            return Err(AssociationError::NoGeneration(g));
        },
    };
    let score = match scores.score(d) {
        Some(x) => x,
        None => {
            return Err(AssociationError::NoDifficulty(d));
        },
    };
    match score.for_version(version) {
        Some(v) => Ok(v),
        None => Err(AssociationError::NotInVersion),
    }
}


/// How many utage charts have the kanji `kanji`.
pub open spec fn utage_count(us: Seq<UtageScore>, kanji: Seq<char>) -> nat
    decreases us.len(),
{
    if us.len() == 0 {
        0
    } else {
        utage_count(us.drop_last(), kanji) + if us.last().kanji.0@ == kanji {
            1nat
        } else {
            0
        }
    }
}

/// The position of the last utage chart with the kanji `kanji`.
pub open spec fn utage_last(us: Seq<UtageScore>, kanji: Seq<char>) -> int
    decreases us.len(),
{
    if us.len() == 0 {
        -1
    } else if us.last().kanji.0@ == kanji {
        us.len() - 1
    } else {
        utage_last(us.drop_last(), kanji)
    }
}

/// What the chart of a record on song `k` is: the one utage chart of the
/// record's kind, or the ordinary chart of its generation and difficulty in
/// the version of its time.
pub open spec fn record_score<'s>(
    db: SongDatabase<'s>,
    k: int,
    record: SchemaPlayRecord,
    sc: Result<ScoreForVersionRef<'s>, AssociationError>,
) -> bool {
    let song = db.source_spec()[k];
    match record.utage_metadata {
        Some(u) => {
            let us = song.utage_scores@;
            let kanji = utage_kind_kanji(u.kind);
            let c = utage_count(us, kanji);
            if c == 1 {
                sc matches Ok(ScoreForVersionRef::Utage(x)) && x.song_spec() == db.refs_spec()[k] && x.score_spec()
                    == us[utage_last(us, kanji)]
            } else {
                sc == Err::<ScoreForVersionRef<'s>, AssociationError>(AssociationError::UtageNotUnique(c as usize))
            }
        },
        None => match version_of_time(record.played_at.time) {
            None => sc == Err::<ScoreForVersionRef<'s>, AssociationError>(AssociationError::NoVersion),
            Some(v) => {
                let g = record.score_metadata.generation;
                let d = record.score_metadata.difficulty;
                match scores_of(song, g) {
                    None => sc == Err::<ScoreForVersionRef<'s>, AssociationError>(AssociationError::NoGeneration(g)),
                    Some(scores) => match score_of(scores, d) {
                        None => sc == Err::<ScoreForVersionRef<'s>, AssociationError>(AssociationError::NoDifficulty(d)),
                        Some(_) => if score_exists_in(song, scores, v) {
                            sc matches Ok(ScoreForVersionRef::Ordinary(o)) && is_version_chart(
                                db.refs_spec(),
                                db.source_spec(),
                                o,
                                v,
                                k,
                                g,
                                d,
                            )
                        } else {
                            sc == Err::<ScoreForVersionRef<'s>, AssociationError>(AssociationError::NotInVersion)
                        },
                    },
                }
            },
        },
    }
}

/// A play record with the chart it was played on, or why that chart is
/// not known.
pub struct PlayRecord<'d, 's> {
    record: &'d SchemaPlayRecord,
    score: Result<ScoreForVersionRef<'s>, AssociationError>,
}

impl<'d, 's> PlayRecord<'d, 's> {
    #[verifier::type_invariant]
    spec fn inv(self) -> bool {
        &&& (self.score matches Ok(ScoreForVersionRef::Utage(_)) ==> self.record.utage_metadata is Some)
        &&& (self.score matches Ok(ScoreForVersionRef::Ordinary(_)) ==> self.record.utage_metadata is None)
    }

    pub closed spec fn record_spec(self) -> SchemaPlayRecord {
        *self.record
    }

    pub closed spec fn score_spec(self) -> Result<ScoreForVersionRef<'s>, AssociationError> {
        self.score
    }

    pub fn record(&self) -> (r: &'d SchemaPlayRecord)
        ensures
            *r == self.record_spec(),
    {
        self.record
    }

    pub fn score(&self) -> (r: Result<ScoreForVersionRef<'s>, AssociationError>)
        ensures
            r == self.score_spec(),
    {
        self.score
    }

    /// Ties a record to its song (by cover art) and chart. Fails only when
    /// no song has the record's cover art; a chart that cannot be found is
    /// kept as the record's error.
    pub fn annotate(db: &SongDatabase<'s>, record: &'d SchemaPlayRecord) -> (r: Result<PlayRecord<'d, 's>, AssociationError>)
        ensures
            (forall|k: int| 0 <= k < db.source_spec().len() ==> !has_icon(#[trigger] db.source_spec()[k], record.song_metadata.cover_art))
                ==> r == Err::<PlayRecord<'d, 's>, AssociationError>(AssociationError::NoSongForIcon),
            forall|k: int|
                0 <= k < db.source_spec().len() && has_icon(#[trigger] db.source_spec()[k], record.song_metadata.cover_art)
                    ==> (r matches Ok(p) && p.record_spec() == *record && record_score(*db, k, *record, p.score_spec())),
    {
        let song = match db.song_from_icon(&record.song_metadata.cover_art) {
            Ok(s) => s,
            Err(_) => {
                return Err(AssociationError::NoSongForIcon);
            },
        };
        let ghost k = song.index_spec() as int;
        let score = match &record.utage_metadata {
            Some(u) => {
                let kind = UtageKindRaw::of_kind(&u.kind);
                let utages = song.utage_scores();
                let mut count: usize = 0;
                let mut last: Option<UtageScoreRef<'s>> = None;
                let mut j: usize = 0;
                let ghost us = song.song_spec().utage_scores@;
                while j < utages.len()
                    invariant
                        0 <= j <= utages@.len(),
                        utages@.len() == us.len(),
                        forall|i: int|
                            0 <= i < utages@.len() ==> (#[trigger] utages@[i]).song_spec() == song && utages@[i].score_spec()
                                == us[i],
                        count == utage_count(us.take(j as int), kind.0@),
                        count <= j,
                        match last {
                            Some(x) => count > 0 && x.song_spec() == song && x.score_spec() == us[utage_last(us.take(j as int), kind.0@)],
                            None => count == 0,
                        },
                        utage_last(us.take(j as int), kind.0@) < j,
                        count > 0 ==> 0 <= utage_last(us.take(j as int), kind.0@),
                    decreases utages@.len() - j,
                {
                    proof {
                        assert(us.take(j + 1).drop_last() =~= us.take(j as int));
                        assert(us.take(j + 1).last() == us[j as int]);
                    }
                    let x = utages[j];
                    if str_eq(x.score().kanji.0.as_str(), kind.0.as_str()) {
                        count = count + 1;
                        last = Some(x);
                    }
                    proof {
                        let t = us.take(j + 1);
                        if utage_last(us.take(j as int), kind.0@) >= 0 {
                            assert(t[utage_last(us.take(j as int), kind.0@)] == us[utage_last(us.take(j as int), kind.0@)]);
                        }
                    }
                    j = j + 1;
                }
                proof {
                    assert(us.take(us.len() as int) =~= us);
                }
                if count == 1 {
                    match last {
                        Some(x) => Ok(ScoreForVersionRef::Utage(x)),
                        None => Err(AssociationError::UtageNotUnique(count)),
                    }
                } else {
                    Err(AssociationError::UtageNotUnique(count))
                }
            },
            None => match MaimaiVersion::of_time(record.played_at.time) {
                None => Err(AssociationError::NoVersion),
                Some(v) => match lookup_chart(
                    db,
                    song,
                    record.score_metadata.generation,
                    record.score_metadata.difficulty,
                    v,
                ) {
                    Ok(o) => Ok(ScoreForVersionRef::Ordinary(o)),
                    Err(e) => Err(e),
                },
            },
        };
        proof {
            let k0 = song.index_spec() as int;
            let icon = record.song_metadata.cover_art;
            assert(has_icon(db.source_spec()[k0], icon));
            assert forall|kk: int|
                0 <= kk < db.source_spec().len() && has_icon(#[trigger] db.source_spec()[kk], icon) implies kk == k0 by {
                if kk < k0 {
                    assert(!(has_icon(db.source_spec()[kk], icon) && has_icon(db.source_spec()[k0], icon)));
                } else if kk > k0 {
                    assert(!(has_icon(db.source_spec()[k0], icon) && has_icon(db.source_spec()[kk], icon)));
                }
            }
            assert(record_score(*db, k0, *record, score));
        }
        Ok(PlayRecord { record, score })
    }
}


/// The cover art that the map of ids gives for `id` (the first entry).
pub open spec fn idx_lookup(m: Seq<(ScoreIdx, SongIcon)>, id: Seq<char>) -> Option<SongIcon>
    decreases m.len(),
{
    if m.len() == 0 {
        None
    } else if m[0].0.0@ == id {
        Some(m[0].1)
    } else {
        idx_lookup(m.drop_first(), id)
    }
}

/// Song `k` has the cover art `icon`, and no other song has it.
pub open spec fn only_song_with_icon<'s>(db: SongDatabase<'s>, k: int, icon: SongIcon) -> bool {
    &&& 0 <= k < db.source_spec().len()
    &&& has_icon(db.source_spec()[k], icon)
    &&& forall|j: int| 0 <= j < db.source_spec().len() && j != k ==> !has_icon(#[trigger] db.source_spec()[j], icon)
}

/// The chart of a rating target entry: the song is the one song of that
/// latest name, or else the song with the cover art that the entry's id
/// maps to.
pub open spec fn entry_score<'s>(
    db: SongDatabase<'s>,
    version: MaimaiVersion,
    data: rating_target::RatingTargetEntry,
    idx_map: Seq<(ScoreIdx, SongIcon)>,
    sc: Result<OrdinaryScoreForVersionRef<'s>, AssociationError>,
) -> bool {
    let named = refs_named(db.refs_spec(), data.song_name.0@);
    let g = data.score_metadata.generation;
    let d = data.score_metadata.difficulty;
    if named.len() == 1 {
        chart_lookup(db, named[0].index_spec() as int, g, d, version, sc)
    } else {
        match idx_lookup(idx_map, data.idx.0@) {
            None => sc == Err::<OrdinaryScoreForVersionRef<'s>, AssociationError>(AssociationError::IdxNotRegistered),
            Some(icon) => if exists|k: int| 0 <= k < db.source_spec().len() && has_icon(#[trigger] db.source_spec()[k], icon) {
                exists|k: int| only_song_with_icon(db, k, icon) && chart_lookup(db, k, g, d, version, sc)
            } else {
                sc == Err::<OrdinaryScoreForVersionRef<'s>, AssociationError>(AssociationError::NoSongForIcon)
            },
        }
    }
}

fn find_idx<'a>(m: &'a Vec<(ScoreIdx, SongIcon)>, id: &ScoreIdx) -> (r: Option<&'a SongIcon>)
    ensures
        match idx_lookup(m@, id.0@) {
            Some(icon) => r matches Some(x) && *x == icon,
            None => r is None,
        },
{
    let mut i: usize = 0;
    proof {
        assert(m@.subrange(0, m@.len() as int) =~= m@);
    }
    while i < m.len()
        invariant
            0 <= i <= m@.len(),
            idx_lookup(m@, id.0@) == idx_lookup(m@.subrange(i as int, m@.len() as int), id.0@),
        decreases m@.len() - i,
    {
        let ghost rest = m@.subrange(i as int, m@.len() as int);
        proof {
            assert(rest.drop_first() =~= m@.subrange(i + 1, m@.len() as int));
            assert(rest[0] == m@[i as int]);
        }
        if str_eq(m[i].0.0.as_str(), id.0.as_str()) {
            return Some(&m[i].1);
        }
        i = i + 1;
    }
    None
}

/// An entry of a rating target list with its chart, or why that chart is
/// not known.
pub struct RatingTargetEntry<'d, 's> {
    data: &'d rating_target::RatingTargetEntry,
    score: Result<OrdinaryScoreForVersionRef<'s>, AssociationError>,
}

impl<'d, 's> RatingTargetEntry<'d, 's> {
    pub closed spec fn data_spec(self) -> rating_target::RatingTargetEntry {
        *self.data
    }

    pub closed spec fn score_spec(self) -> Result<OrdinaryScoreForVersionRef<'s>, AssociationError> {
        self.score
    }

    pub fn data(&self) -> (r: &'d rating_target::RatingTargetEntry)
        ensures
            *r == self.data_spec(),
    {
        self.data
    }

    pub fn score(&self) -> (r: Result<OrdinaryScoreForVersionRef<'s>, AssociationError>)
        ensures
            r == self.score_spec(),
    {
        self.score
    }

    /// The entry with its chart, when it is known.
    pub fn as_associated(&self) -> (r: Result<RatingTargetEntryAssociated<'d, 's>, AssociationError>)
        ensures
            match self.score_spec() {
                Ok(v) => r matches Ok(x) && *x.data == self.data_spec() && x.score == v,
                Err(e) => r == Err::<RatingTargetEntryAssociated<'d, 's>, AssociationError>(e),
            },
    {
        match self.score {
            Ok(score) => Ok(RatingTargetEntryAssociated { data: self.data, score }),
            Err(e) => Err(e),
        }
    }

    /// Ties an entry of a rating target list of `version` to its chart.
    pub fn annotate(
        db: &SongDatabase<'s>,
        version: MaimaiVersion,
        data: &'d rating_target::RatingTargetEntry,
        idx_map: &Vec<(ScoreIdx, SongIcon)>,
    ) -> (r: RatingTargetEntry<'d, 's>)
        ensures
            r.data_spec() == *data,
            entry_score(*db, version, *data, idx_map@, r.score_spec()),
    {
        let named = db.song_from_name(&data.song_name);
        let g = data.score_metadata.generation;
        let d = data.score_metadata.difficulty;
        let score = if named.len() == 1 {
            lookup_chart(db, named[0], g, d, version)
        } else {
            match find_idx(idx_map, &data.idx) {
                None => Err(AssociationError::IdxNotRegistered),
                Some(icon) => match db.song_from_icon(icon) {
                    Err(_) => Err(AssociationError::NoSongForIcon),
                    Ok(song) => {
                        let res = lookup_chart(db, song, g, d, version);
                        proof {
                            let k0 = song.index_spec() as int;
                            assert forall|j: int|
                                0 <= j < db.source_spec().len() && j != k0 implies !has_icon(
                                    #[trigger] db.source_spec()[j],
                                    *icon,
                                ) by {
                                if j < k0 {
                                    assert(!(has_icon(db.source_spec()[j], *icon) && has_icon(db.source_spec()[k0], *icon)));
                                } else {
                                    assert(!(has_icon(db.source_spec()[k0], *icon) && has_icon(db.source_spec()[j], *icon)));
                                }
                            }
                            assert(only_song_with_icon(*db, k0, *icon));
                            assert(has_icon(db.source_spec()[k0], *icon));
                        }
                        res
                    },
                },
            }
        };
        RatingTargetEntry { data, score }
    }
}

/// An entry of a rating target list with its chart.
#[derive(Clone, Copy)]
pub struct RatingTargetEntryAssociated<'d, 's> {
    pub data: &'d rating_target::RatingTargetEntry,
    pub score: OrdinaryScoreForVersionRef<'s>,
}


/// The entries with their charts, in order, or the error of the first
/// entry whose chart is not known.
pub open spec fn entries_assoc<'d, 's>(es: Seq<RatingTargetEntry<'d, 's>>) -> Result<
    Seq<(rating_target::RatingTargetEntry, OrdinaryScoreForVersionRef<'s>)>,
    AssociationError,
>
    decreases es.len(),
{
    if es.len() == 0 {
        Ok(Seq::empty())
    } else {
        match entries_assoc(es.drop_last()) {
            Err(e) => Err(e),
            Ok(v) => match es.last().score_spec() {
                Ok(o) => Ok(v.push((es.last().data_spec(), o))),
                Err(e) => Err(e),
            },
        }
    }
}

/// The entries and charts that associated entries hold.
pub open spec fn entry_pairs<'d, 's>(v: Seq<RatingTargetEntryAssociated<'d, 's>>) -> Seq<
    (rating_target::RatingTargetEntry, OrdinaryScoreForVersionRef<'s>),
> {
    v.map_values(|x: RatingTargetEntryAssociated<'d, 's>| (*x.data, x.score))
}

proof fn lemma_entries_err_sticks<'d, 's>(es: Seq<RatingTargetEntry<'d, 's>>, i: int, e: AssociationError)
    requires
        0 <= i <= es.len(),
        entries_assoc(es.take(i)) == Err::<Seq<(rating_target::RatingTargetEntry, OrdinaryScoreForVersionRef<'s>)>, AssociationError>(e),
    ensures
        entries_assoc(es) == Err::<Seq<(rating_target::RatingTargetEntry, OrdinaryScoreForVersionRef<'s>)>, AssociationError>(e),
    decreases es.len() - i,
{
    if i == es.len() {
        assert(es.take(i) =~= es);
    } else {
        assert(es.take(i + 1).drop_last() =~= es.take(i));
        lemma_entries_err_sticks(es, i + 1, e);
    }
}

/// The entries with their charts, or the error of the first entry whose
/// chart is not known.
fn associate_entries<'d, 's>(es: &Vec<RatingTargetEntry<'d, 's>>) -> (r: Result<Vec<RatingTargetEntryAssociated<'d, 's>>, AssociationError>)
    ensures
        match entries_assoc(es@) {
            Ok(p) => r matches Ok(v) && entry_pairs(v@) == p,
            Err(e) => r == Err::<Vec<RatingTargetEntryAssociated<'d, 's>>, AssociationError>(e),
        },
{
    let mut out: Vec<RatingTargetEntryAssociated<'d, 's>> = Vec::new();
    let mut i: usize = 0;
    proof {
        assert(es@.take(0) =~= Seq::<RatingTargetEntry<'d, 's>>::empty());
        assert(entry_pairs(out@) =~= Seq::empty());
    }
    while i < es.len()
        invariant
            0 <= i <= es@.len(),
            entries_assoc(es@.take(i as int)) == Ok::<Seq<(rating_target::RatingTargetEntry, OrdinaryScoreForVersionRef<'s>)>, AssociationError>(entry_pairs(out@)),
        decreases es@.len() - i,
    {
        proof {
            assert(es@.take(i + 1).drop_last() =~= es@.take(i as int));
        }
        match es[i].as_associated() {
            Ok(x) => {
                let ghost old_out = out@;
                out.push(x);
                proof {
                    assert(entry_pairs(out@) =~= entry_pairs(old_out).push((*x.data, x.score)));
                }
            },
            Err(e) => {
                proof {
                    lemma_entries_err_sticks(es@, i + 1, e);
                }
                return Err(e);
            },
        }
        i = i + 1;
    }
    proof {
        assert(es@.take(es@.len() as int) =~= es@);
    }
    Ok(out)
}

/// Each entry of `out` is the entry of `src` at its place, tied to its
/// chart in `version`.
pub open spec fn entries_annotated<'d, 's>(
    db: SongDatabase<'s>,
    version: MaimaiVersion,
    src: Seq<rating_target::RatingTargetEntry>,
    idx_map: Seq<(ScoreIdx, SongIcon)>,
    out: Seq<RatingTargetEntry<'d, 's>>,
) -> bool {
    &&& out.len() == src.len()
    &&& forall|i: int|
        0 <= i < src.len() ==> (#[trigger] out[i]).data_spec() == src[i] && entry_score(
            db,
            version,
            src[i],
            idx_map,
            out[i].score_spec(),
        )
}

fn annotate_entries<'d, 's>(
    db: &SongDatabase<'s>,
    version: MaimaiVersion,
    src: &'d Vec<rating_target::RatingTargetEntry>,
    idx_map: &Vec<(ScoreIdx, SongIcon)>,
) -> (r: Vec<RatingTargetEntry<'d, 's>>)
    ensures
        entries_annotated(*db, version, src@, idx_map@, r@),
{
    let mut out: Vec<RatingTargetEntry<'d, 's>> = Vec::new();
    let mut i: usize = 0;
    while i < src.len()
        invariant
            0 <= i <= src@.len(),
            out@.len() == i,
            forall|j: int|
                0 <= j < i ==> (#[trigger] out@[j]).data_spec() == src@[j] && entry_score(
                    *db,
                    version,
                    src@[j],
                    idx_map@,
                    out@[j].score_spec(),
                ),
        decreases src@.len() - i,
    {
        let e = RatingTargetEntry::annotate(db, version, &src[i], idx_map);
        out.push(e);
        i = i + 1;
    }
    out
}

/// A rating target list with each of its entries tied to its chart.
pub struct RatingTargetList<'d, 's> {
    list: &'d rating_target::RatingTargetList,
    target_new: Vec<RatingTargetEntry<'d, 's>>,
    target_old: Vec<RatingTargetEntry<'d, 's>>,
    candidates_new: Vec<RatingTargetEntry<'d, 's>>,
    candidates_old: Vec<RatingTargetEntry<'d, 's>>,
}

/// What an associated rating target list holds: the list, then the entries
/// and charts of its four parts.
pub open spec fn list_parts<'d, 's>(x: RatingTargetListAssociated<'d, 's>) -> (
    rating_target::RatingTargetList,
    Seq<(rating_target::RatingTargetEntry, OrdinaryScoreForVersionRef<'s>)>,
    Seq<(rating_target::RatingTargetEntry, OrdinaryScoreForVersionRef<'s>)>,
    Seq<(rating_target::RatingTargetEntry, OrdinaryScoreForVersionRef<'s>)>,
    Seq<(rating_target::RatingTargetEntry, OrdinaryScoreForVersionRef<'s>)>,
) {
    (
        *x.list,
        entry_pairs(x.target_new@),
        entry_pairs(x.target_old@),
        entry_pairs(x.candidates_new@),
        entry_pairs(x.candidates_old@),
    )
}

/// A rating target list is associated when all its entries are: then it
/// holds the list and the four parts; otherwise the first error, looking at
/// the new targets, the old targets, the new candidates and the old
/// candidates in that order.
pub open spec fn list_assoc<'d, 's>(l: RatingTargetList<'d, 's>) -> Result<
    (
        rating_target::RatingTargetList,
        Seq<(rating_target::RatingTargetEntry, OrdinaryScoreForVersionRef<'s>)>,
        Seq<(rating_target::RatingTargetEntry, OrdinaryScoreForVersionRef<'s>)>,
        Seq<(rating_target::RatingTargetEntry, OrdinaryScoreForVersionRef<'s>)>,
        Seq<(rating_target::RatingTargetEntry, OrdinaryScoreForVersionRef<'s>)>,
    ),
    AssociationError,
> {
    match entries_assoc(l.target_new_spec()) {
        Err(e) => Err(e),
        Ok(a) => match entries_assoc(l.target_old_spec()) {
            Err(e) => Err(e),
            Ok(b) => match entries_assoc(l.candidates_new_spec()) {
                Err(e) => Err(e),
                Ok(c) => match entries_assoc(l.candidates_old_spec()) {
                    Err(e) => Err(e),
                    Ok(d) => Ok((l.list_spec(), a, b, c, d)),
                },
            },
        },
    }
}

/// `x` is `list` of the time `time`, each entry tied to its chart in the
/// version of that time.
pub open spec fn list_annotated<'d, 's>(
    db: SongDatabase<'s>,
    list: rating_target::RatingTargetList,
    version: MaimaiVersion,
    idx_map: Seq<(ScoreIdx, SongIcon)>,
    x: RatingTargetList<'d, 's>,
) -> bool {
    &&& x.list_spec() == list
    &&& entries_annotated(db, version, list.target_new@, idx_map, x.target_new_spec())
    &&& entries_annotated(db, version, list.target_old@, idx_map, x.target_old_spec())
    &&& entries_annotated(db, version, list.candidates_new@, idx_map, x.candidates_new_spec())
    &&& entries_annotated(db, version, list.candidates_old@, idx_map, x.candidates_old_spec())
}

impl<'d, 's> RatingTargetList<'d, 's> {
    pub closed spec fn list_spec(self) -> rating_target::RatingTargetList {
        *self.list
    }

    pub closed spec fn target_new_spec(self) -> Seq<RatingTargetEntry<'d, 's>> {
        self.target_new@
    }

    pub closed spec fn target_old_spec(self) -> Seq<RatingTargetEntry<'d, 's>> {
        self.target_old@
    }

    pub closed spec fn candidates_new_spec(self) -> Seq<RatingTargetEntry<'d, 's>> {
        self.candidates_new@
    }

    pub closed spec fn candidates_old_spec(self) -> Seq<RatingTargetEntry<'d, 's>> {
        self.candidates_old@
    }

    pub fn list(&self) -> (r: &'d rating_target::RatingTargetList)
        ensures
            *r == self.list_spec(),
    {
        self.list
    }

    pub fn target_new(&self) -> (r: &Vec<RatingTargetEntry<'d, 's>>)
        ensures
            r@ == self.target_new_spec(),
    {
        &self.target_new
    }

    pub fn target_old(&self) -> (r: &Vec<RatingTargetEntry<'d, 's>>)
        ensures
            r@ == self.target_old_spec(),
    {
        &self.target_old
    }

    pub fn candidates_new(&self) -> (r: &Vec<RatingTargetEntry<'d, 's>>)
        ensures
            r@ == self.candidates_new_spec(),
    {
        &self.candidates_new
    }

    pub fn candidates_old(&self) -> (r: &Vec<RatingTargetEntry<'d, 's>>)
        ensures
            r@ == self.candidates_old_spec(),
    {
        &self.candidates_old
    }

    /// Ties each entry of `list`, the rating target list as of `time`, to
    /// its chart in the version of `time`. Fails when `time` lies in no
    /// version; an entry whose chart cannot be found keeps its error.
    pub fn annotate(
        db: &SongDatabase<'s>,
        list: &'d rating_target::RatingTargetList,
        time: PlayTime,
        idx_map: &Vec<(ScoreIdx, SongIcon)>,
    ) -> (r: Result<RatingTargetList<'d, 's>, AssociationError>)
        ensures
            match version_of_time(time) {
                None => r == Err::<RatingTargetList<'d, 's>, AssociationError>(AssociationError::NoVersion),
                Some(v) => r matches Ok(x) && list_annotated(*db, *list, v, idx_map@, x),
            },
    {
        let version = match MaimaiVersion::of_time(time) {
            Some(v) => v,
            None => {
                return Err(AssociationError::NoVersion);
            },
        };
        let target_new = annotate_entries(db, version, &list.target_new, idx_map);
        let target_old = annotate_entries(db, version, &list.target_old, idx_map);
        let candidates_new = annotate_entries(db, version, &list.candidates_new, idx_map);
        let candidates_old = annotate_entries(db, version, &list.candidates_old, idx_map);
        Ok(RatingTargetList { list, target_new, target_old, candidates_new, candidates_old })
    }

    /// The list with all its charts, or the first error.
    pub fn as_associated(&self) -> (r: Result<RatingTargetListAssociated<'d, 's>, AssociationError>)
        ensures
            match list_assoc(*self) {
                Ok(q) => r matches Ok(x) && list_parts(x) == q,
                Err(e) => r == Err::<RatingTargetListAssociated<'d, 's>, AssociationError>(e),
            },
    {
        let target_new = match associate_entries(&self.target_new) {
            Ok(v) => v,
            Err(e) => {
                return Err(e);
            },
        };
        let target_old = match associate_entries(&self.target_old) {
            Ok(v) => v,
            Err(e) => {
                return Err(e);
            },
        };
        let candidates_new = match associate_entries(&self.candidates_new) {
            Ok(v) => v,
            Err(e) => {
                return Err(e);
            },
        };
        let candidates_old = match associate_entries(&self.candidates_old) {
            Ok(v) => v,
            Err(e) => {
                return Err(e);
            },
        };
        Ok(RatingTargetListAssociated { list: self.list, target_new, target_old, candidates_new, candidates_old })
    }
}

/// A rating target list with all its charts.
pub struct RatingTargetListAssociated<'d, 's> {
    pub list: &'d rating_target::RatingTargetList,
    pub target_new: Vec<RatingTargetEntryAssociated<'d, 's>>,
    pub target_old: Vec<RatingTargetEntryAssociated<'d, 's>>,
    pub candidates_new: Vec<RatingTargetEntryAssociated<'d, 's>>,
    pub candidates_old: Vec<RatingTargetEntryAssociated<'d, 's>>,
}


/// A play record on an ordinary chart, with that chart or why it is not
/// known.
pub struct OrdinaryPlayRecord<'d, 's> {
    record: &'d SchemaPlayRecord,
    score: Result<OrdinaryScoreForVersionRef<'s>, AssociationError>,
}

impl<'d, 's> OrdinaryPlayRecord<'d, 's> {
    pub closed spec fn record_spec(self) -> SchemaPlayRecord {
        *self.record
    }

    pub closed spec fn score_spec(self) -> Result<OrdinaryScoreForVersionRef<'s>, AssociationError> {
        self.score
    }

    pub fn record(&self) -> (r: &'d SchemaPlayRecord)
        ensures
            *r == self.record_spec(),
    {
        self.record
    }

    pub fn score(&self) -> (r: Result<OrdinaryScoreForVersionRef<'s>, AssociationError>)
        ensures
            r == self.score_spec(),
    {
        self.score
    }

    /// The record with its chart, when the chart is known.
    pub fn into_associated(self) -> (r: Result<OrdinaryPlayRecordAssociated<'d, 's>, AssociationError>)
        ensures
            match self.score_spec() {
                Ok(o) => r matches Ok(x) && *x.record == self.record_spec() && x.score == o,
                Err(e) => r == Err::<OrdinaryPlayRecordAssociated<'d, 's>, AssociationError>(e),
            },
    {
        match self.score {
            Ok(score) => Ok(OrdinaryPlayRecordAssociated { record: self.record, score }),
            Err(e) => Err(e),
        }
    }
}

/// A play record with the ordinary chart it was played on.
#[derive(Clone, Copy)]
pub struct OrdinaryPlayRecordAssociated<'d, 's> {
    pub record: &'d SchemaPlayRecord,
    pub score: OrdinaryScoreForVersionRef<'s>,
}

impl<'d, 's> PlayRecord<'d, 's> {
    /// The record as one on an ordinary chart: `None` for a record of an
    /// utage chart.
    pub fn as_ordinary(&self) -> (r: Option<OrdinaryPlayRecord<'d, 's>>)
        ensures
            self.record_spec().utage_metadata is Some <==> r is None,
            r matches Some(o) ==> o.record_spec() == self.record_spec() && match self.score_spec() {
                Ok(ScoreForVersionRef::Ordinary(x)) => o.score_spec() == Ok::<OrdinaryScoreForVersionRef<'s>, AssociationError>(x),
                Ok(ScoreForVersionRef::Utage(_)) => false,
                Err(e) => o.score_spec() == Err::<OrdinaryScoreForVersionRef<'s>, AssociationError>(e),
            },
    {
        proof {
            use_type_invariant(self);
        }
        if self.record.utage_metadata.is_some() {
            return None;
        }
        let score = match self.score {
            Ok(ScoreForVersionRef::Ordinary(x)) => Ok(x),
            Ok(ScoreForVersionRef::Utage(_)) => {
                proof {
                    assert(false);
                }
                Err(AssociationError::NoVersion)
            },
            Err(e) => Err(e),
        };
        Some(OrdinaryPlayRecord { record: self.record, score })
    }
}

/// The records of ordinary charts among `rs`, in order, with their charts;
/// or the error of the first such record whose chart is not known.
pub open spec fn ordinary_pairs<'d, 's>(rs: Seq<PlayRecord<'d, 's>>) -> Result<
    Seq<(SchemaPlayRecord, OrdinaryScoreForVersionRef<'s>)>,
    AssociationError,
>
    decreases rs.len(),
{
    if rs.len() == 0 {
        Ok(Seq::empty())
    } else {
        match ordinary_pairs(rs.drop_last()) {
            Err(e) => Err(e),
            Ok(v) => {
                let p = rs.last();
                if p.record_spec().utage_metadata is Some {
                    Ok(v)
                } else {
                    match p.score_spec() {
                        Ok(ScoreForVersionRef::Ordinary(o)) => Ok(v.push((p.record_spec(), o))),
                        Ok(ScoreForVersionRef::Utage(_)) => Ok(v),
                        Err(e) => Err(e),
                    }
                }
            },
        }
    }
}

/// The records and charts that associated records hold.
pub open spec fn record_pairs<'d, 's>(v: Seq<OrdinaryPlayRecordAssociated<'d, 's>>) -> Seq<
    (SchemaPlayRecord, OrdinaryScoreForVersionRef<'s>),
> {
    v.map_values(|x: OrdinaryPlayRecordAssociated<'d, 's>| (*x.record, x.score))
}

/// The lists with all their charts, in order, or the first error.
pub open spec fn targets_assoc<'d, 's>(ts: Seq<(PlayTime, RatingTargetList<'d, 's>)>) -> Result<
    Seq<
        (
            PlayTime,
            (
                rating_target::RatingTargetList,
                Seq<(rating_target::RatingTargetEntry, OrdinaryScoreForVersionRef<'s>)>,
                Seq<(rating_target::RatingTargetEntry, OrdinaryScoreForVersionRef<'s>)>,
                Seq<(rating_target::RatingTargetEntry, OrdinaryScoreForVersionRef<'s>)>,
                Seq<(rating_target::RatingTargetEntry, OrdinaryScoreForVersionRef<'s>)>,
            ),
        ),
    >,
    AssociationError,
>
    decreases ts.len(),
{
    if ts.len() == 0 {
        Ok(Seq::empty())
    } else {
        match targets_assoc(ts.drop_last()) {
            Err(e) => Err(e),
            Ok(v) => match list_assoc(ts.last().1) {
                Ok(q) => Ok(v.push((ts.last().0, q))),
                Err(e) => Err(e),
            },
        }
    }
}

/// What associated lists hold, with their times.
pub open spec fn target_parts<'d, 's>(v: Seq<(PlayTime, RatingTargetListAssociated<'d, 's>)>) -> Seq<
    (
        PlayTime,
        (
            rating_target::RatingTargetList,
            Seq<(rating_target::RatingTargetEntry, OrdinaryScoreForVersionRef<'s>)>,
            Seq<(rating_target::RatingTargetEntry, OrdinaryScoreForVersionRef<'s>)>,
            Seq<(rating_target::RatingTargetEntry, OrdinaryScoreForVersionRef<'s>)>,
            Seq<(rating_target::RatingTargetEntry, OrdinaryScoreForVersionRef<'s>)>,
        ),
    ),
> {
    v.map_values(|x: (PlayTime, RatingTargetListAssociated<'d, 's>)| (x.0, list_parts(x.1)))
}

proof fn lemma_ordinary_err_sticks<'d, 's>(rs: Seq<PlayRecord<'d, 's>>, i: int, e: AssociationError)
    requires
        0 <= i <= rs.len(),
        ordinary_pairs(rs.take(i)) == Err::<Seq<(SchemaPlayRecord, OrdinaryScoreForVersionRef<'s>)>, AssociationError>(e),
    ensures
        ordinary_pairs(rs) == Err::<Seq<(SchemaPlayRecord, OrdinaryScoreForVersionRef<'s>)>, AssociationError>(e),
    decreases rs.len() - i,
{
    if i == rs.len() {
        assert(rs.take(i) =~= rs);
    } else {
        assert(rs.take(i + 1).drop_last() =~= rs.take(i));
        lemma_ordinary_err_sticks(rs, i + 1, e);
    }
}

proof fn lemma_targets_err_sticks<'d, 's>(ts: Seq<(PlayTime, RatingTargetList<'d, 's>)>, i: int, e: AssociationError)
    requires
        0 <= i <= ts.len(),
        targets_assoc(ts.take(i)) is Err,
        targets_assoc(ts.take(i))->Err_0 == e,
    ensures
        targets_assoc(ts) is Err,
        targets_assoc(ts)->Err_0 == e,
    decreases ts.len() - i,
{
    if i == ts.len() {
        assert(ts.take(i) =~= ts);
    } else {
        assert(ts.take(i + 1).drop_last() =~= ts.take(i));
        lemma_targets_err_sticks(ts, i + 1, e);
    }
}

/// Record `p` is `rec` tied to its chart in the database.
pub open spec fn record_annotated<'d, 's>(db: SongDatabase<'s>, rec: SchemaPlayRecord, p: PlayRecord<'d, 's>) -> bool {
    &&& p.record_spec() == rec
    &&& forall|k: int|
        0 <= k < db.source_spec().len() && has_icon(#[trigger] db.source_spec()[k], rec.song_metadata.cover_art)
            ==> record_score(db, k, rec, p.score_spec())
}

/// No song of the database has the cover art `icon`.
pub open spec fn icon_unknown<'s>(db: SongDatabase<'s>, icon: SongIcon) -> bool {
    forall|k: int| 0 <= k < db.source_spec().len() ==> !has_icon(#[trigger] db.source_spec()[k], icon)
}

/// The play records and rating target lists of a user, tied to the charts
/// of a song database.
pub struct UserData<'d, 's> {
    records: Vec<PlayRecord<'d, 's>>,
    rating_target: Vec<(PlayTime, RatingTargetList<'d, 's>)>,
}

/// The records of ordinary charts and the rating target lists of a user,
/// all with their charts.
pub struct UserDataOrdinaryAssociated<'d, 's> {
    pub ordinary_records: Vec<OrdinaryPlayRecordAssociated<'d, 's>>,
    pub rating_target: Vec<(PlayTime, RatingTargetListAssociated<'d, 's>)>,
}

impl<'d, 's> UserData<'d, 's> {
    pub closed spec fn records_spec(self) -> Seq<PlayRecord<'d, 's>> {
        self.records@
    }

    pub closed spec fn rating_target_spec(self) -> Seq<(PlayTime, RatingTargetList<'d, 's>)> {
        self.rating_target@
    }

    pub fn records(&self) -> (r: &Vec<PlayRecord<'d, 's>>)
        ensures
            r@ == self.records_spec(),
    {
        &self.records
    }

    pub fn rating_target(&self) -> (r: &Vec<(PlayTime, RatingTargetList<'d, 's>)>)
        ensures
            r@ == self.rating_target_spec(),
    {
        &self.rating_target
    }

    /// Ties each record and each rating target list of a user to the
    /// database. Fails with `NoSongForIcon` when some record's cover art
    /// belongs to no song, else with `NoVersion` when some list's time lies
    /// in no version.
    pub fn annotate(
        db: &SongDatabase<'s>,
        records: &'d Vec<SchemaPlayRecord>,
        rating_targets: &'d Vec<(PlayTime, rating_target::RatingTargetList)>,
        idx_map: &Vec<(ScoreIdx, SongIcon)>,
    ) -> (r: Result<UserData<'d, 's>, AssociationError>)
        ensures
            (exists|i: int| 0 <= i < records@.len() && icon_unknown(*db, #[trigger] records@[i].song_metadata.cover_art))
                ==> r == Err::<UserData<'d, 's>, AssociationError>(AssociationError::NoSongForIcon),
            (forall|i: int| 0 <= i < records@.len() ==> !icon_unknown(*db, #[trigger] records@[i].song_metadata.cover_art))
                && (exists|j: int| 0 <= j < rating_targets@.len() && version_of_time(#[trigger] rating_targets@[j].0) is None)
                ==> r == Err::<UserData<'d, 's>, AssociationError>(AssociationError::NoVersion),
            (forall|i: int| 0 <= i < records@.len() ==> !icon_unknown(*db, #[trigger] records@[i].song_metadata.cover_art))
                && (forall|j: int| 0 <= j < rating_targets@.len() ==> version_of_time(#[trigger] rating_targets@[j].0) is Some)
                ==> (r matches Ok(u) && u.records_spec().len() == records@.len() && (forall|i: int|
                0 <= i < records@.len() ==> record_annotated(*db, records@[i], #[trigger] u.records_spec()[i]))
                && u.rating_target_spec().len() == rating_targets@.len() && (forall|j: int|
                0 <= j < rating_targets@.len() ==> (#[trigger] u.rating_target_spec()[j]).0 == rating_targets@[j].0
                    && list_annotated(
                    *db,
                    rating_targets@[j].1,
                    version_of_time(rating_targets@[j].0)->Some_0,
                    idx_map@,
                    u.rating_target_spec()[j].1,
                ))),
    {
        let mut out: Vec<PlayRecord<'d, 's>> = Vec::new();
        let mut i: usize = 0;
        while i < records.len()
            invariant
                0 <= i <= records@.len(),
                out@.len() == i,
                forall|j: int| 0 <= j < i ==> !icon_unknown(*db, #[trigger] records@[j].song_metadata.cover_art),
                forall|j: int| 0 <= j < i ==> record_annotated(*db, records@[j], #[trigger] out@[j]),
            decreases records@.len() - i,
        {
            match PlayRecord::annotate(db, &records[i]) {
                Ok(p) => {
                    out.push(p);
                },
                Err(e) => {
                    proof {
                        let icon = records@[i as int].song_metadata.cover_art;
                        if !icon_unknown(*db, icon) {
                            let k = choose|k: int| 0 <= k < db.source_spec().len() && has_icon(db.source_spec()[k], icon);
                            assert(has_icon(db.source_spec()[k], icon));
                        }
                        assert(icon_unknown(*db, records@[i as int].song_metadata.cover_art));
                    }
                    return Err(e);
                },
            }
            i = i + 1;
        }
        let mut lists: Vec<(PlayTime, RatingTargetList<'d, 's>)> = Vec::new();
        let mut j: usize = 0;
        while j < rating_targets.len()
            invariant
                0 <= j <= rating_targets@.len(),
                lists@.len() == j,
                out@.len() == records@.len(),
                forall|m: int| 0 <= m < records@.len() ==> !icon_unknown(*db, #[trigger] records@[m].song_metadata.cover_art),
                forall|m: int| 0 <= m < records@.len() ==> record_annotated(*db, records@[m], #[trigger] out@[m]),
                forall|m: int| 0 <= m < j ==> version_of_time(#[trigger] rating_targets@[m].0) is Some,
                forall|m: int|
                    0 <= m < j ==> (#[trigger] lists@[m]).0 == rating_targets@[m].0 && list_annotated(
                        *db,
                        rating_targets@[m].1,
                        version_of_time(rating_targets@[m].0)->Some_0,
                        idx_map@,
                        lists@[m].1,
                    ),
            decreases rating_targets@.len() - j,
        {
            let time = rating_targets[j].0;
            match RatingTargetList::annotate(db, &rating_targets[j].1, time, idx_map) {
                Ok(l) => {
                    lists.push((time, l));
                },
                Err(e) => {
                    proof {
                        assert(version_of_time(rating_targets@[j as int].0) is None);
                    }
                    return Err(e);
                },
            }
            j = j + 1;
        }
        Ok(UserData { records: out, rating_target: lists })
    }

    /// The records of ordinary charts and the rating target lists, all with
    /// their charts; or the first error among the records, then among the
    /// lists.
    pub fn ordinary_data_associated(&self) -> (r: Result<UserDataOrdinaryAssociated<'d, 's>, AssociationError>)
        ensures
            match ordinary_pairs(self.records_spec()) {
                Err(e) => r == Err::<UserDataOrdinaryAssociated<'d, 's>, AssociationError>(e),
                Ok(op) => match targets_assoc(self.rating_target_spec()) {
                    Err(e) => r == Err::<UserDataOrdinaryAssociated<'d, 's>, AssociationError>(e),
                    Ok(tp) => r matches Ok(u) && record_pairs(u.ordinary_records@) == op && target_parts(
                        u.rating_target@,
                    ) == tp,
                },
            },
    {
        let mut ordinary: Vec<OrdinaryPlayRecordAssociated<'d, 's>> = Vec::new();
        let mut i: usize = 0;
        proof {
            assert(self.records@.take(0) =~= Seq::<PlayRecord<'d, 's>>::empty());
            assert(record_pairs(ordinary@) =~= Seq::empty());
        }
        while i < self.records.len()
            invariant
                0 <= i <= self.records@.len(),
                ordinary_pairs(self.records@.take(i as int)) == Ok::<Seq<(SchemaPlayRecord, OrdinaryScoreForVersionRef<'s>)>, AssociationError>(
                    record_pairs(ordinary@),
                ),
            decreases self.records@.len() - i,
        {
            proof {
                assert(self.records@.take(i + 1).drop_last() =~= self.records@.take(i as int));
            }
            match self.records[i].as_ordinary() {
                None => {},
                Some(o) => match o.into_associated() {
                    Ok(x) => {
                        let ghost before = ordinary@;
                        ordinary.push(x);
                        proof {
                            assert(record_pairs(ordinary@) =~= record_pairs(before).push((*x.record, x.score)));
                        }
                    },
                    Err(e) => {
                        proof {
                            lemma_ordinary_err_sticks(self.records@, i + 1, e);
                        }
                        return Err(e);
                    },
                },
            }
            i = i + 1;
        }
        proof {
            assert(self.records@.take(self.records@.len() as int) =~= self.records@);
        }
        let mut lists: Vec<(PlayTime, RatingTargetListAssociated<'d, 's>)> = Vec::new();
        let mut j: usize = 0;
        proof {
            assert(self.rating_target@.take(0) =~= Seq::<(PlayTime, RatingTargetList<'d, 's>)>::empty());
            assert(target_parts(lists@) =~= Seq::empty());
        }
        while j < self.rating_target.len()
            invariant
                0 <= j <= self.rating_target@.len(),
                ordinary_pairs(self.records@) == Ok::<Seq<(SchemaPlayRecord, OrdinaryScoreForVersionRef<'s>)>, AssociationError>(
                    record_pairs(ordinary@),
                ),
                targets_assoc(self.rating_target@.take(j as int)) matches Ok(tp) && tp == target_parts(lists@),
            decreases self.rating_target@.len() - j,
        {
            proof {
                assert(self.rating_target@.take(j + 1).drop_last() =~= self.rating_target@.take(j as int));
            }
            let time = self.rating_target[j].0;
            match self.rating_target[j].1.as_associated() {
                Ok(x) => {
                    let ghost before = lists@;
                    let ghost q = list_parts(x);
                    lists.push((time, x));
                    proof {
                        assert(target_parts(lists@) =~= target_parts(before).push((time, q)));
                    }
                },
                Err(e) => {
                    proof {
                        lemma_targets_err_sticks(self.rating_target@, j + 1, e);
                    }
                    return Err(e);
                },
            }
            j = j + 1;
        }
        proof {
            assert(self.rating_target@.take(self.rating_target@.len() as int) =~= self.rating_target@);
        }
        Ok(UserDataOrdinaryAssociated { ordinary_records: ordinary, rating_target: lists })
    }
}

} // verus!
