use vstd::prelude::*;

use crate::maimai::schema::latest::{naive_seconds_of, parse_naive_seconds, Idx, PlayTime, JST_OFFSET_SECONDS};
use crate::text::{find_str, occurs_at, push_str, str_eq};

verus! {

/// Characters that a file name may not hold on common file systems.
pub open spec fn disallowed_for_filename_spec(c: char) -> bool {
    ('\u{0}' <= c && c <= '\u{1F}') || c == '<' || c == '>' || c == ':' || c == '\\' || c == '|' || c == '?'
        || c == '*' || c == '"' || c == '/'
}

pub fn disallowed_for_filename(c: char) -> (r: bool)
    ensures
        r == disallowed_for_filename_spec(c),
{
    ('\u{0}' <= c && c <= '\u{1F}') || c == '<' || c == '>' || c == ':' || c == '\\' || c == '|' || c == '?'
        || c == '*' || c == '"' || c == '/'
}

/// A song title made fit for a file name: each disallowed character
/// becomes `_`.
pub open spec fn escape_title_spec(title: Seq<char>) -> Seq<char> {
    title.map_values(|c: char| if disallowed_for_filename_spec(c) { '_' } else { c })
}

pub fn escape_title(title: &str) -> (r: String)
    ensures
        r@ == escape_title_spec(title@),
{
    let n = title.unicode_len();
    let mut r = String::new();
    let mut i: usize = 0;
    while i < n
        invariant
            n == title@.len(),
            0 <= i <= n,
            r@ == escape_title_spec(title@.subrange(0, i as int)),
        decreases n - i,
    {
        let c = title.get_char(i);
        let e = if disallowed_for_filename(c) { '_' } else { c };
        crate::text::push_char(&mut r, e);
        proof {
            assert(title@.subrange(0, i + 1) =~= title@.subrange(0, i as int).push(c));
            assert(escape_title_spec(title@.subrange(0, i + 1)) =~= escape_title_spec(
                title@.subrange(0, i as int),
            ).push(e));
        }
        i = i + 1;
    }
    proof {
        assert(title@.subrange(0, n as int) =~= title@);
    }
    r
}


/// The time stamp that the name of a saved screenshot of a play record
/// gives: the part before the first `_playlogDetail_`, read in the format
/// of the screenshots' time stamps.
pub open spec fn saved_playlog_time_spec(name: Seq<char>) -> Option<i64> {
    if exists|i: int| occurs_at(name, "_playlogDetail_"@, i) {
        let i = choose|i: int| occurs_at(name, "_playlogDetail_"@, i) && forall|j: int| 0 <= j < i ==> !occurs_at(name, "_playlogDetail_"@, j);
        naive_seconds_of(name.take(i), "%Y-%m-%d_%H-%M-%S"@)
    } else {
        None
    }
}

/// The time stamp (as seconds) that the name of a saved screenshot of a
/// play record gives, if it is one.
pub fn saved_playlog_time(name: &str) -> (r: Option<i64>)
    ensures
        r == saved_playlog_time_spec(name@),
{
    match find_str(name, "_playlogDetail_") {
        None => None,
        Some(i) => {
            proof {
                let k = choose|k: int| occurs_at(name@, "_playlogDetail_"@, k) && forall|j: int| 0 <= j < k ==> !occurs_at(name@, "_playlogDetail_"@, j);
                assert(occurs_at(name@, "_playlogDetail_"@, i as int));
                if k < i {
                } else if k > i {
                }
                assert(k == i);
            }
            let head = name.substring_char(0, i);
            proof {
                assert(head@ =~= name@.take(i as int));
            }
            parse_naive_seconds(head, "%Y-%m-%d_%H-%M-%S")
        },
    }
}

/// The record has no time stamp on the record index.
#[derive(Clone, Copy, PartialEq, Eq, Structural, Debug)]
pub struct NoTimestamp;

/// Whether a play record is to be captured: its time (Japan time, from the
/// record index), unless a screenshot of that time is saved already.
pub fn playlog_capture_time(idx: Idx, saved: &Vec<i64>) -> (r: Result<Option<PlayTime>, NoTimestamp>)
    requires
        idx.timestamp_value() matches Some(t) ==> t <= i64::MAX - JST_OFFSET_SECONDS,
    ensures
        match idx.timestamp_value() {
            None => r == Err::<Option<PlayTime>, NoTimestamp>(NoTimestamp),
            Some(t) => if saved@.contains((t + JST_OFFSET_SECONDS) as i64) {
                r == Ok::<Option<PlayTime>, NoTimestamp>(None)
            } else {
                r == Ok::<Option<PlayTime>, NoTimestamp>(Some(PlayTime::from_seconds_spec(t + JST_OFFSET_SECONDS)))
            },
        },
{
    let t = match idx.timestamp_jst() {
        Some(t) => t,
        None => {
            return Err(NoTimestamp);
        },
    };
    let mut i: usize = 0;
    while i < saved.len()
        invariant
            0 <= i <= saved@.len(),
            idx.timestamp_value() is Some,
            t.seconds() == idx.timestamp_value()->0 + JST_OFFSET_SECONDS,
            forall|j: int| 0 <= j < i ==> saved@[j] != t.seconds(),
        decreases saved@.len() - i,
    {
        if saved[i] == t.get() {
            proof {
                assert(saved@[i as int] == (idx.timestamp_value()->0 + JST_OFFSET_SECONDS) as i64);
            }
            return Ok(None);
        }
        i = i + 1;
    }
    Ok(Some(t))
}

/// The latest time (Japan time) among the records' time stamps.
pub fn latest_record_time(records: &Vec<(PlayTime, Idx)>) -> (r: Option<PlayTime>)
    requires
        forall|i: int|
            0 <= i < records@.len() ==> ((#[trigger] records@[i]).1.timestamp_value() matches Some(t) && t <= i64::MAX
                - JST_OFFSET_SECONDS),
    ensures
        records@.len() == 0 ==> r is None,
        records@.len() > 0 ==> (r matches Some(m) && (exists|i: int|
            0 <= i < records@.len() && m.seconds() == (#[trigger] records@[i]).1.timestamp_value()->0
                + JST_OFFSET_SECONDS) && forall|i: int|
            0 <= i < records@.len() ==> (#[trigger] records@[i]).1.timestamp_value()->0 + JST_OFFSET_SECONDS
                <= m.seconds()),
{
    let mut best: Option<PlayTime> = None;
    let mut i: usize = 0;
    while i < records.len()
        invariant
            0 <= i <= records@.len(),
            forall|k: int|
                0 <= k < records@.len() ==> ((#[trigger] records@[k]).1.timestamp_value() matches Some(t) && t
                    <= i64::MAX - JST_OFFSET_SECONDS),
            i == 0 ==> best is None,
            i > 0 ==> (best matches Some(m) && (exists|k: int|
                0 <= k < i && m.seconds() == (#[trigger] records@[k]).1.timestamp_value()->0
                    + JST_OFFSET_SECONDS) && forall|k: int|
                0 <= k < i ==> (#[trigger] records@[k]).1.timestamp_value()->0 + JST_OFFSET_SECONDS
                    <= m.seconds()),
        decreases records@.len() - i,
    {
        let r = records[i];
        let t = match r.1.timestamp_jst() {
            Some(t) => t,
            None => {
                proof {
                    assert(records@[i as int].1.timestamp_value() is Some);
                }
                return None;
            },
        };
        best = match best {
            None => Some(t),
            Some(m) => if m.get() < t.get() {
                Some(t)
            } else {
                Some(m)
            },
        };
        i = i + 1;
    }
    best
}

/// The file name of the screenshot of a play record: the time stamp, then
/// `_playlogDetail_`, then the title made fit for a file name.
pub fn playlog_screenshot_name(timestamp: &str, title: &str) -> (r: String)
    ensures
        r@ == timestamp@ + "_playlogDetail_"@ + escape_title_spec(title@) + ".png"@,
{
    let mut r = String::new();
    push_str(&mut r, timestamp);
    push_str(&mut r, "_playlogDetail_");
    let t = escape_title(title);
    push_str(&mut r, t.as_str());
    push_str(&mut r, ".png");
    r
}

/// The file name of the screenshot of the rating target list.
pub fn rating_target_screenshot_name(timestamp: &str) -> (r: String)
    ensures
        r@ == timestamp@ + "_ratingTarget.png"@,
{
    let mut r = String::new();
    push_str(&mut r, timestamp);
    push_str(&mut r, "_ratingTarget.png");
    r
}

/// The file name of a screenshot that the rating tool shows, as a list or
/// as tiles, with the time stamp of the tool's update.
pub fn tool_screenshot_name(timestamp: &str, update_time: &str, tiles: bool) -> (r: String)
    ensures
        r@ == timestamp@ + "_tool_"@ + update_time@ + (if tiles {
            "_tiles.png"@
        } else {
            "_list.png"@
        }),
{
    let mut r = String::new();
    push_str(&mut r, timestamp);
    push_str(&mut r, "_tool_");
    push_str(&mut r, update_time);
    if tiles {
        push_str(&mut r, "_tiles.png");
    } else {
        push_str(&mut r, "_list.png");
    }
    r
}

/// The tool finds its own screenshots again: the name given to the
/// screenshot of a play record reads back as the time stamp it was made
/// from, whenever that time stamp holds no `p` (as the time stamp format
/// never writes one).
pub proof fn lemma_playlog_name_read_back(timestamp: Seq<char>, title: Seq<char>)
    requires
        !timestamp.contains('p'),
    ensures
        saved_playlog_time_spec(timestamp + "_playlogDetail_"@ + escape_title_spec(title) + ".png"@)
            == naive_seconds_of(timestamp, "%Y-%m-%d_%H-%M-%S"@),
{
    reveal_strlit("_playlogDetail_");
    let mark = "_playlogDetail_"@;
    let name = timestamp + mark + escape_title_spec(title) + ".png"@;
    let n = timestamp.len() as int;
    assert(name.subrange(n, n + mark.len()) =~= mark);
    assert(occurs_at(name, mark, n));
    assert forall|j: int| 0 <= j < n implies !occurs_at(name, mark, j) by {
        if occurs_at(name, mark, j) {
            assert(name.subrange(j, j + mark.len())[1] == mark[1]);
            assert(name[j + 1] == 'p');
            if j + 1 < n {
                assert(name[j + 1] == timestamp[j + 1]);
                assert(timestamp.contains('p'));
            } else {
                assert(name[n] == mark[0]);
            }
        }
    }
    let i = choose|i: int| occurs_at(name, mark, i) && forall|j: int| 0 <= j < i ==> !occurs_at(name, mark, j);
    assert(occurs_at(name, mark, i) && forall|j: int| 0 <= j < i ==> !occurs_at(name, mark, j));
    assert(i == n);
    assert(name.take(n) =~= timestamp);
}

/// The text of a wall-clock time (seconds since 1970-01-01 00:00) in the
/// file names of screenshots, chrono's `%Y-%m-%d_%H-%M-%S`; none for times
/// chrono cannot hold.
pub uninterp spec fn screenshot_time_text(t: i64) -> Option<Seq<char>>;

/// Shows a wall-clock time with chrono's `format("%Y-%m-%d_%H-%M-%S")`
/// (after `DateTime::from_timestamp`). The text is named, not stated.
#[verifier::external_body]
fn format_screenshot_time(t: i64) -> (r: Option<String>)
    ensures
        r.deep_view() == screenshot_time_text(t),
{
    chrono::DateTime::from_timestamp(t, 0).map(|d| d.naive_utc().format("%Y-%m-%d_%H-%M-%S").to_string())
}

/// The time of a play as screenshot file names show it.
pub fn screenshot_time(t: PlayTime) -> (r: Option<String>)
    ensures
        r.deep_view() == screenshot_time_text(t.seconds()),
{
    format_screenshot_time(t.get())
}

/// A file of this name is saved.
pub open spec fn saved_in(files: Seq<String>, name: Seq<char>) -> bool {
    exists|i: int| 0 <= i < files.len() && (#[trigger] files[i])@ == name
}

/// The screenshot to take is the file `name`, unless it is saved.
pub open spec fn to_capture(files: Seq<String>, name: Seq<char>, r: Option<String>) -> bool {
    if saved_in(files, name) {
        r is None
    } else {
        match r {
            Some(n) => n@ == name,
            None => false,
        }
    }
}

/// Whether a file of the given name is among the saved files.
pub fn is_saved(files: &Vec<String>, name: &str) -> (r: bool)
    ensures
        r == saved_in(files@, name@),
{
    let mut i: usize = 0;
    while i < files.len()
        invariant
            0 <= i <= files@.len(),
            forall|j: int| 0 <= j < i ==> (#[trigger] files@[j])@ != name@,
        decreases files@.len() - i,
    {
        if str_eq(files[i].as_str(), name) {
            return true;
        }
        i = i + 1;
    }
    false
}

/// The screenshot of the rating target list to take after the records up
/// to the time `latest` (as file names show it): none when it is saved.
pub fn rating_target_to_capture(files: &Vec<String>, latest: &str) -> (r: Option<String>)
    ensures
        to_capture(files@, latest@ + "_ratingTarget.png"@, r),
{
    let name = rating_target_screenshot_name(latest);
    if is_saved(files, name.as_str()) {
        None
    } else {
        Some(name)
    }
}

/// The screenshot of the rating tool (as a list or as tiles, with the
/// time of the tool's update) to take after the records up to `latest`:
/// none when it is saved.
pub fn tool_to_capture(files: &Vec<String>, latest: &str, update_time: &str, tiles: bool) -> (r: Option<String>)
    ensures
        to_capture(
            files@,
            latest@ + "_tool_"@ + update_time@ + (if tiles {
                "_tiles.png"@
            } else {
                "_list.png"@
            }),
            r,
        ),
{
    let name = tool_screenshot_name(latest, update_time, tiles);
    if is_saved(files, name.as_str()) {
        None
    } else {
        Some(name)
    }
}

} // verus!
