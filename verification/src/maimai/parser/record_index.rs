use vstd::prelude::*;

use crate::dom::{element_text, first_attr, first_attr_of, following, following_elements, select, selected, text};
use crate::maimai::parser::play_record::{parse_play_date, play_date_seconds, FieldError};
use crate::maimai::schema::latest::{parse_idx_spec, Idx, IdxParseError, PlayTime, JST_OFFSET_SECONDS};

verus! {

/// What the record index shows of one play: whether the block after its
/// top block is there, the `value` of the idx input in that block (`None`
/// when there is no input, `Some(None)` when it has no value), and the text
/// of the play date in the top block, if there is one.
#[derive(Clone, Debug)]
pub struct IndexFields {
    pub main_container: bool,
    pub idx_input: Option<Option<String>>,
    pub play_date: Option<String>,
}

/// A part of the record index that was not found.
#[derive(Clone, Copy, PartialEq, Eq, Structural, Debug)]
pub enum IndexPart {
    MainContainer,
    IdxInput,
    PlayDate,
}

/// Why the record index could not be read.
#[derive(Clone, Copy, PartialEq, Eq, Structural, Debug)]
pub enum RecordIndexError {
    Missing(IndexPart),
    /// The idx input has no value.
    NoIdxValue,
    Idx(IdxParseError),
    /// The time stamp is too late for any calendar.
    TimestampRange,
    PlayDate(FieldError),
    /// The page could not be walked: a selector was refused or an element
    /// was not found again.
    Walk,
}

/// The time and the index of a play, or why they cannot be read: the
/// index comes from the idx input; the time is its time stamp in Japan time
/// when it carries one, else the play date of the top block.
pub open spec fn index_entry(f: IndexFields, r: Result<(PlayTime, Idx), RecordIndexError>) -> bool {
    if !f.main_container {
        r == Err::<(PlayTime, Idx), RecordIndexError>(RecordIndexError::Missing(IndexPart::MainContainer))
    } else {
        match f.idx_input {
            None => r == Err::<(PlayTime, Idx), RecordIndexError>(RecordIndexError::Missing(IndexPart::IdxInput)),
            Some(None) => r == Err::<(PlayTime, Idx), RecordIndexError>(RecordIndexError::NoIdxValue),
            Some(Some(v)) => match parse_idx_spec(v@) {
                Err(e) => r == Err::<(PlayTime, Idx), RecordIndexError>(RecordIndexError::Idx(e)),
                Ok(idx) => match idx.timestamp_value() {
                    Some(t) => if t > i64::MAX - JST_OFFSET_SECONDS {
                        r == Err::<(PlayTime, Idx), RecordIndexError>(RecordIndexError::TimestampRange)
                    } else {
                        r == Ok::<(PlayTime, Idx), RecordIndexError>(
                            (PlayTime::from_seconds_spec(t + JST_OFFSET_SECONDS), idx),
                        )
                    },
                    None => match f.play_date {
                        None => r == Err::<(PlayTime, Idx), RecordIndexError>(
                            RecordIndexError::Missing(IndexPart::PlayDate),
                        ),
                        Some(d) => match play_date_seconds(d@) {
                            None => r == Err::<(PlayTime, Idx), RecordIndexError>(
                                RecordIndexError::PlayDate(FieldError::Format),
                            ),
                            Some(s) => r == Ok::<(PlayTime, Idx), RecordIndexError>(
                                (PlayTime::from_seconds_spec(s as int), idx),
                            ),
                        },
                    },
                },
            },
        }
    }
}

/// The play reads.
pub open spec fn index_entry_ok(f: IndexFields) -> bool {
    &&& f.main_container
    &&& f.idx_input matches Some(Some(v)) && parse_idx_spec(v@) matches Ok(idx) && match idx.timestamp_value() {
        Some(t) => t <= i64::MAX - JST_OFFSET_SECONDS,
        None => f.play_date matches Some(d) && play_date_seconds(d@) is Some,
    }
}

/// Reads one play of the record index.
pub fn parse_index_entry(f: &IndexFields) -> (r: Result<(PlayTime, Idx), RecordIndexError>)
    ensures
        index_entry(*f, r),
        r is Ok <==> index_entry_ok(*f),
{
    if !f.main_container {
        return Err(RecordIndexError::Missing(IndexPart::MainContainer));
    }
    let idx = match &f.idx_input {
        None => {
            return Err(RecordIndexError::Missing(IndexPart::IdxInput));
        },
        Some(None) => {
            return Err(RecordIndexError::NoIdxValue);
        },
        Some(Some(v)) => match Idx::from_str(v.as_str()) {
            Ok(i) => i,
            Err(e) => {
                return Err(RecordIndexError::Idx(e));
            },
        },
    };
    match idx.timestamp() {
        Some(t) => {
            if t > i64::MAX - JST_OFFSET_SECONDS {
                return Err(RecordIndexError::TimestampRange);
            }
            match idx.timestamp_jst() {
                Some(time) => Ok((time, idx)),
                None => Err(RecordIndexError::TimestampRange),
            }
        },
        None => match &f.play_date {
            None => Err(RecordIndexError::Missing(IndexPart::PlayDate)),
            Some(d) => match parse_play_date(d.as_str()) {
                Ok(time) => Ok((time, idx)),
                Err(e) => Err(RecordIndexError::PlayDate(e)),
            },
        },
    }
}

/// What the record index gives for its plays `blocks`: the times and
/// indices in page order, or the error of the first play that does not read.
pub open spec fn index_list_result(blocks: Seq<IndexFields>, r: Result<Vec<(PlayTime, Idx)>, RecordIndexError>) -> bool {
    match r {
        Ok(v) => v@.len() == blocks.len() && forall|i: int|
            0 <= i < blocks.len() ==> index_entry(blocks[i], Ok(#[trigger] v@[i])),
        Err(e) => exists|i: int|
            0 <= i < blocks.len() && (forall|j: int| 0 <= j < i ==> index_entry_ok(#[trigger] blocks[j]))
                && index_entry(#[trigger] blocks[i], Err(e)),
    }
}

/// Reads the record index, play by play: the times and indices in the
/// order of the page, or the error of the first play that does not read.
pub fn parse_record_index(blocks: &Vec<IndexFields>) -> (r: Result<Vec<(PlayTime, Idx)>, RecordIndexError>)
    ensures
        index_list_result(blocks@, r),
{
    let mut out: Vec<(PlayTime, Idx)> = Vec::new();
    let mut i: usize = 0;
    while i < blocks.len()
        invariant
            0 <= i <= blocks@.len(),
            out@.len() == i,
            forall|j: int| 0 <= j < i ==> index_entry(blocks@[j], Ok(#[trigger] out@[j])),
            forall|j: int| 0 <= j < i ==> index_entry_ok(#[trigger] blocks@[j]),
        decreases blocks@.len() - i,
    {
        match parse_index_entry(&blocks[i]) {
            Ok(x) => {
                out.push(x);
            },
            Err(e) => {
                proof {
                    assert(index_entry(blocks@[i as int], Err(e)));
                }
                return Err(e);
            },
        }
        i = i + 1;
    }
    Ok(out)
}

/// The fields of the play whose top block is element `top` of the page:
/// the block after it, the idx input in that block, and the second span of
/// its sub title.
pub open spec fn index_fields_at(html: Seq<char>, top: usize, f: IndexFields) -> bool {
    &&& following_elements(html, top) matches Some(sibs)
    &&& f.main_container == (sibs.len() > 0)
    &&& if sibs.len() > 0 {
        first_attr(html, sibs[0], "input[name='idx']"@, "value"@) == Some(f.idx_input.deep_view())
    } else {
        f.idx_input is None
    }
    &&& selected(html, top, "div.sub_title > span"@) matches Some(spans)
    &&& if spans.len() > 1 {
        element_text(html, spans[1]) matches Some(t) && f.play_date.deep_view() == Some(t)
    } else {
        f.play_date is None
    }
}

/// Every query of `index_fields_at` answers.
pub open spec fn index_walk_ok(html: Seq<char>, top: usize) -> bool {
    &&& following_elements(html, top) matches Some(sibs)
    &&& (sibs.len() > 0 ==> first_attr(html, sibs[0], "input[name='idx']"@, "value"@) is Some)
    &&& selected(html, top, "div.sub_title > span"@) matches Some(spans)
    &&& (spans.len() > 1 ==> element_text(html, spans[1]) is Some)
}

/// The top blocks of the plays on the page.
pub open spec fn index_tops(html: Seq<char>) -> Option<Seq<usize>> {
    selected(html, 0, ".playlog_top_container"@)
}

/// The fields of every play of the record index page, in page order.
pub open spec fn index_page_fields(html: Seq<char>, blocks: Seq<IndexFields>) -> bool {
    &&& index_tops(html) matches Some(tops)
    &&& blocks.len() == tops.len()
    &&& forall|i: int| 0 <= i < tops.len() ==> index_fields_at(html, tops[i], #[trigger] blocks[i])
}

/// The page can be walked.
pub open spec fn index_page_walk_ok(html: Seq<char>) -> bool {
    &&& index_tops(html) matches Some(tops)
    &&& forall|i: int| 0 <= i < tops.len() ==> index_walk_ok(html, #[trigger] tops[i])
}

fn read_index_fields(html: &str, top: usize) -> (r: Option<IndexFields>)
    ensures
        r is Some == index_walk_ok(html@, top),
        r matches Some(f) ==> index_fields_at(html@, top, f),
{
    let sibs = following(html, top)?;
    let idx_input = if sibs.len() > 0 {
        first_attr_of(html, sibs[0], "input[name='idx']", "value")?
    } else {
        None
    };
    let spans = select(html, top, "div.sub_title > span")?;
    let play_date = if spans.len() > 1 {
        Some(text(html, spans[1])?)
    } else {
        None
    };
    Some(IndexFields { main_container: sibs.len() > 0, idx_input, play_date })
}

/// Reads the record index page: for each play, its top block, the block
/// after it with the idx input, and the play date; then the times and
/// indices as `parse_record_index` reads them.
pub fn parse_record_index_page(html: &str) -> (r: Result<Vec<(PlayTime, Idx)>, RecordIndexError>)
    ensures
        if index_page_walk_ok(html@) {
            exists|blocks: Seq<IndexFields>| #[trigger] index_page_fields(html@, blocks) && index_list_result(blocks, r)
        } else {
            r == Err::<Vec<(PlayTime, Idx)>, RecordIndexError>(RecordIndexError::Walk)
        },
{
    let tops = match select(html, 0, ".playlog_top_container") {
        Some(t) => t,
        None => {
            return Err(RecordIndexError::Walk);
        },
    };
    let mut blocks: Vec<IndexFields> = Vec::new();
    let mut i: usize = 0;
    while i < tops.len()
        invariant
            i <= tops@.len(),
            index_tops(html@) == Some(tops@),
            blocks@.len() == i,
            forall|j: int| 0 <= j < i ==> index_walk_ok(html@, #[trigger] tops@[j]),
            forall|j: int| 0 <= j < i ==> index_fields_at(html@, tops@[j], #[trigger] blocks@[j]),
        decreases tops@.len() - i,
    {
        match read_index_fields(html, tops[i]) {
            Some(f) => {
                blocks.push(f);
            },
            None => {
                proof {
                    let ts = index_tops(html@)->0;
                    assert(!index_walk_ok(html@, ts[i as int]));
                }
                return Err(RecordIndexError::Walk);
            },
        }
        i = i + 1;
    }
    let r = parse_record_index(&blocks);
    proof {
        assert(index_page_fields(html@, blocks@));
    }
    r
}

} // verus!
