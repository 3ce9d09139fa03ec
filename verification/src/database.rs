//! Sessions as they are stored and as they are read back.

use vstd::prelude::*;
use std::collections::HashMap;
use crate::moment::{
    LAST_MILLI_OF_9999, parse_rfc3339, parsed_rfc3339, rfc3339_of_millis, rfc3339_text,
};
use crate::session_tracker::Session;
use crate::text::{comma_joined, join_paths};

verus! {

/// One stored session as the store takes it: both times as RFC 3339 text,
/// the project root, and the touched paths joined with commas.
pub struct SessionRow {
    pub start_time: String,
    pub end_time: String,
    pub project_path: String,
    pub files: String,
}

/// One stored session as reports read it back.
#[derive(Debug, Clone)]
pub struct SessionEntry {
    pub start: String,
    pub end: String,
    pub project_path: String,
}

/// The RFC 3339 text for a time given in milliseconds since the epoch, if
/// it can be written.
pub open spec fn timestamp_text(millis: nat) -> Option<Seq<char>> {
    if millis <= i64::MAX {
        rfc3339_of_millis(millis as int)
    } else {
        None
    }
}

/// Writes a time given in milliseconds since the epoch as RFC 3339 text.
/// Every time up to the end of the year 9999 can be written.
pub fn format_timestamp(millis: u64) -> (text: Option<String>)
    ensures
        match text {
            Some(t) => timestamp_text(millis as nat) == Some(t@),
            None => timestamp_text(millis as nat) is None,
        },
        millis <= LAST_MILLI_OF_9999 ==> text is Some,
{
    if millis > 0x7fff_ffff_ffff_ffff {
        None
    } else {
        rfc3339_text(millis as i64)
    }
}

/// The row for a session whose two times have been written out: there is
/// one if both could be written. The root is taken unchanged, the paths are
/// joined with commas, repeats included.
pub fn row_of(session: &Session, start_time: Option<String>, end_time: Option<String>) -> (row:
    Option<SessionRow>)
    ensures
        match (start_time, end_time) {
            (Some(start), Some(end)) => row matches Some(r) && r.start_time@ == start@
                && r.end_time@ == end@ && r.project_path@ == session@.project_path && r.files@
                == comma_joined(session@.files),
            _ => row is None,
        },
{
    match (start_time, end_time) {
        (Some(start_time), Some(end_time)) => Some(
            SessionRow {
                start_time,
                end_time,
                project_path: session.project_path.clone(),
                files: join_paths(&session.files),
            },
        ),
        _ => None,
    }
}

/// The row under which a closed session is stored: its times written out,
/// its root unchanged, its paths joined with commas, repeats included.
/// There is a row whenever both times can be written, so for every session
/// that ends before the year 10000.
pub fn session_row(session: &Session) -> (row: Option<SessionRow>)
    ensures
        match (timestamp_text(session@.start), timestamp_text(session@.end)) {
            (Some(start), Some(end)) => row matches Some(r) && r.start_time@ == start
                && r.end_time@ == end && r.project_path@ == session@.project_path && r.files@
                == comma_joined(session@.files),
            _ => row is None,
        },
        session.start <= LAST_MILLI_OF_9999 && session.end <= LAST_MILLI_OF_9999 ==> row is Some,
{
    let start_time = format_timestamp(session.start);
    let end_time = format_timestamp(session.end);
    row_of(session, start_time, end_time)
}

/// The calendar day an entry started on, as its start time was written,
/// counted from 1970-01-01; nothing if the start time cannot be read.
pub open spec fn entry_day(entry: SessionEntry) -> Option<int> {
    match parsed_rfc3339(entry.start@) {
        Some(stamp) => Some(stamp.local_day_index()),
        None => None,
    }
}

/// The entries that started on the given day, in stored order.
pub open spec fn entries_on(history: Seq<SessionEntry>, day: int) -> Seq<SessionEntry>
    decreases history.len(),
{
    if history.len() == 0 {
        Seq::empty()
    } else if entry_day(history.last()) == Some(day) {
        entries_on(history.drop_last(), day).push(history.last())
    } else {
        entries_on(history.drop_last(), day)
    }
}

/// A stored session together with the day it started on, counted from
/// 1970-01-01, where its start time could be read.
pub struct DatedEntry {
    pub day: Option<i64>,
    pub entry: SessionEntry,
}

/// The entries dated to the given day, in order.
pub open spec fn dated_on(dated: Seq<DatedEntry>, day: int) -> Seq<SessionEntry>
    decreases dated.len(),
{
    if dated.len() == 0 {
        Seq::empty()
    } else if dated.last().day matches Some(d) && d == day {
        dated_on(dated.drop_last(), day).push(dated.last().entry)
    } else {
        dated_on(dated.drop_last(), day)
    }
}

/// Whether `dated` is `history` with each entry dated to the day it
/// started on.
pub open spec fn dates(dated: Seq<DatedEntry>, history: Seq<SessionEntry>) -> bool {
    &&& dated.len() == history.len()
    &&& forall|i: int|
        0 <= i < dated.len() ==> (#[trigger] dated[i]).entry == history[i] && match entry_day(
            history[i],
        ) {
            Some(day) => dated[i].day matches Some(d) && d == day,
            None => dated[i].day is None,
        }
}

proof fn lemma_dated_on(dated: Seq<DatedEntry>, history: Seq<SessionEntry>, day: int)
    requires
        dates(dated, history),
    ensures
        dated_on(dated, day) == entries_on(history, day),
    decreases dated.len(),
{
    if dated.len() > 0 {
        lemma_dated_on(dated.drop_last(), history.drop_last(), day);
    }
}

/// Dates each entry of a stored history to the calendar day it started
/// on, as its start time was written.
pub fn date_entries(history: &Vec<SessionEntry>) -> (dated: Vec<DatedEntry>)
    ensures
        dates(dated@, history@),
{
    let mut dated: Vec<DatedEntry> = Vec::new();
    let mut i: usize = 0;
    while i < history.len()
        invariant
            i <= history.len(),
            dates(dated@, history@.take(i as int)),
        decreases history.len() - i,
    {
        let entry = &history[i];
        let day = match parse_rfc3339(entry.start.as_str()) {
            Some(stamp) => Some(stamp.local_day()),
            None => None,
        };
        let copy = SessionEntry {
            start: entry.start.clone(),
            end: entry.end.clone(),
            project_path: entry.project_path.clone(),
        };
        dated.push(DatedEntry { day, entry: copy });
        i += 1;
    }
    dated
}

/// Groups dated entries by their day. An entry without a day is in no
/// group. Each day that has an entry has a group, and the group holds that
/// day's entries in order.
pub fn group_dated(dated: &Vec<DatedEntry>) -> (groups: HashMap<i64, Vec<SessionEntry>>)
    ensures
        forall|day: i64| #[trigger]
            groups@.contains_key(day) <==> dated_on(dated@, day as int).len() > 0,
        forall|day: i64|
            groups@.contains_key(day) ==> (#[trigger] groups@[day])@ == dated_on(
                dated@,
                day as int,
            ),
{
    let mut groups: HashMap<i64, Vec<SessionEntry>> = HashMap::new();
    let mut i: usize = 0;
    while i < dated.len()
        invariant
            i <= dated.len(),
            forall|day: i64| #[trigger]
                groups@.contains_key(day) <==> dated_on(dated@.take(i as int), day as int).len()
                    > 0,
            forall|day: i64|
                groups@.contains_key(day) ==> (#[trigger] groups@[day])@ == dated_on(
                    dated@.take(i as int),
                    day as int,
                ),
        decreases dated.len() - i,
    {
        proof {
            assert(dated@.take(i as int + 1).drop_last() =~= dated@.take(i as int));
        }
        let item = &dated[i];
        match item.day {
            Some(day) => {
                let copy = SessionEntry {
                    start: item.entry.start.clone(),
                    end: item.entry.end.clone(),
                    project_path: item.entry.project_path.clone(),
                };
                let mut group = match groups.remove(&day) {
                    Some(group) => group,
                    None => Vec::new(),
                };
                group.push(copy);
                groups.insert(day, group);
            },
            None => {},
        }
        i += 1;
    }
    proof {
        assert(dated@.take(dated.len() as int) =~= dated@);
    }
    groups
}

/// Groups the stored sessions by the calendar day they started on. An
/// entry whose start time cannot be read is in no group. Each day that has
/// an entry has a group, and the group holds that day's entries in stored
/// order.
pub fn group_sessions_by_day(history: &Vec<SessionEntry>) -> (groups: HashMap<
    i64,
    Vec<SessionEntry>,
>)
    ensures
        forall|day: i64| #[trigger]
            groups@.contains_key(day) <==> entries_on(history@, day as int).len() > 0,
        forall|day: i64|
            groups@.contains_key(day) ==> (#[trigger] groups@[day])@ == entries_on(
                history@,
                day as int,
            ),
{
    let dated = date_entries(history);
    proof {
        assert forall|day: i64| #[trigger]
            dated_on(dated@, day as int) == entries_on(history@, day as int) by {
            lemma_dated_on(dated@, history@, day as int);
        }
    }
    group_dated(&dated)
}

/// The formats in which stored sessions can be exported.
#[derive(Debug, Clone, Copy, PartialEq, Eq, Structural)]
pub enum ExportFormat {
    Json,
    Csv,
}

/// The export format a name stands for: `json` or `csv`, written exactly
/// so; any other name stands for none.
pub fn export_format(name: &str) -> (format: Option<ExportFormat>)
    ensures
        format == if name@ == "json"@ {
            Some(ExportFormat::Json)
        } else if name@ == "csv"@ {
            Some(ExportFormat::Csv)
        } else {
            None
        },
{
    let name = name.to_owned();
    if name == "json".to_owned() {
        Some(ExportFormat::Json)
    } else if name == "csv".to_owned() {
        Some(ExportFormat::Csv)
    } else {
        None
    }
}

} // verus!
