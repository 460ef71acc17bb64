use vstd::prelude::*;

use crate::maimai::schema::latest::{time_stamp_text, PlayRecord};
use crate::text::{push_char, push_str};
use crate::watcher::describe_record::{
    make_message, message_defined, message_text, message_time, KnownLevel,
};

verus! {

/// More than a hundred plays were asked for at once.
#[derive(Clone, Copy, PartialEq, Eq, Structural, Debug)]
pub struct TooManyRequested;

/// The lines joined with a line break between each two.
pub open spec fn join_lines(ms: Seq<Seq<char>>) -> Seq<char>
    decreases ms.len(),
{
    if ms.len() == 0 {
        Seq::empty()
    } else if ms.len() == 1 {
        ms[0]
    } else {
        join_lines(ms.drop_last()) + seq!['\n'] + ms.last()
    }
}

/// The message for a play shown at the given level.
pub open spec fn message_of(record: PlayRecord, level: Option<KnownLevel>) -> Seq<char> {
    message_text(time_stamp_text(message_time(record) as i64), record, level)
}

/// The messages of the last `count` plays (all plays when there are fewer),
/// oldest first.
pub open spec fn recent_text(records: Seq<PlayRecord>, levels: Seq<Option<KnownLevel>>, count: int) -> Seq<char> {
    let start = if count < records.len() { records.len() - count } else { 0 };
    join_lines(Seq::new((records.len() - start) as nat, |i: int| message_of(records[start + i], levels[start + i])))
}

/// The messages of the last `count` plays, one after another; `levels`
/// holds the level to show for each play. At most a hundred plays can be
/// asked for.
pub fn recent_message(records: &Vec<PlayRecord>, levels: &Vec<Option<KnownLevel>>, count: usize) -> (r: Result<
    String,
    TooManyRequested,
>)
    requires
        levels@.len() == records@.len(),
        forall|i: int| 0 <= i < records@.len() ==> message_defined(#[trigger] records@[i]),
    ensures
        count > 100 ==> r == Err::<String, TooManyRequested>(TooManyRequested),
        count <= 100 ==> (r matches Ok(s) && s@ == recent_text(records@, levels@, count as int)),
{
    if count > 100 {
        return Err(TooManyRequested);
    }
    let n = records.len();
    let start = if count < n { n - count } else { 0 };
    let ghost lines = Seq::new((n - start) as nat, |i: int| message_of(records@[start + i], levels@[start + i]));
    let mut s = String::new();
    let mut i: usize = start;
    while i < n
        invariant
            start <= i <= n,
            n == records@.len(),
            levels@.len() == records@.len(),
            forall|j: int| 0 <= j < records@.len() ==> message_defined(#[trigger] records@[j]),
            lines == Seq::new((n - start) as nat, |j: int| message_of(records@[start + j], levels@[start + j])),
            s@ == join_lines(lines.take(i - start)),
        decreases n - i,
    {
        let m = make_message(&records[i], levels[i]);
        proof {
            let t = lines.take(i + 1 - start);
            assert(t.drop_last() =~= lines.take(i - start));
            assert(t.last() == m@);
        }
        if i > start {
            push_char(&mut s, '\n');
        }
        push_str(&mut s, m.as_str());
        proof {
            let t = lines.take(i + 1 - start);
            if i == start {
                assert(lines.take(0) =~= Seq::<Seq<char>>::empty());
                assert(s@ =~= t[0]);
            } else {
                assert(s@ =~= join_lines(t.drop_last()) + seq!['\n'] + t.last());
            }
        }
        i = i + 1;
    }
    proof {
        assert(lines.take(n - start) =~= lines);
    }
    Ok(s)
}

} // verus!
