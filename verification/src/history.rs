//! Reports over stored sessions.
//!
//! Stored sessions come back as text. A report reads the two times of each
//! entry, leaves out the entries it cannot read, and sums and groups the
//! rest.

use vstd::prelude::*;
use crate::database::SessionEntry;
use crate::moment::{
    Moment, Stamp, minutes_between, parse_rfc3339, parsed_rfc3339, whole_minutes,
};

verus! {

/// A stored session whose times could be read, as the contracts see it.
pub struct Timed {
    pub start: Moment,
    pub end: Moment,
    /// Whole minutes from start to end, rounded towards zero.
    pub minutes: int,
    pub project_path: Seq<char>,
}

/// A stored session whose times could be read.
pub struct TimedSession {
    pub start: Moment,
    pub end: Moment,
    /// Whole minutes from start to end, rounded towards zero.
    pub minutes: i64,
    pub project_path: String,
}

impl View for TimedSession {
    type V = Timed;

    open spec fn view(&self) -> Timed {
        Timed {
            start: self.start,
            end: self.end,
            minutes: self.minutes as int,
            project_path: self.project_path@,
        }
    }
}

/// The views of a list of timed sessions, in order.
pub open spec fn views(sessions: Seq<TimedSession>) -> Seq<Timed> {
    Seq::new(sessions.len(), |i: int| sessions[i]@)
}

/// What an entry reads as: both of its times have to be RFC 3339 text and
/// the minutes between them have to be countable.
pub open spec fn timed(entry: SessionEntry) -> Option<Timed> {
    match (parsed_rfc3339(entry.start@), parsed_rfc3339(entry.end@)) {
        (Some(start), Some(end)) => match whole_minutes(start.moment, end.moment) {
            Some(minutes) => Some(
                Timed {
                    start: start.moment,
                    end: end.moment,
                    minutes: minutes as int,
                    project_path: entry.project_path@,
                },
            ),
            None => None,
        },
        _ => None,
    }
}

/// The entries that can be read, in stored order.
pub open spec fn timed_entries(history: Seq<SessionEntry>) -> Seq<Timed>
    decreases history.len(),
{
    if history.len() == 0 {
        Seq::empty()
    } else {
        match timed(history.last()) {
            Some(t) => timed_entries(history.drop_last()).push(t),
            None => timed_entries(history.drop_last()),
        }
    }
}

/// The minutes of all sessions added up.
pub open spec fn total_minutes(sessions: Seq<Timed>) -> int
    decreases sessions.len(),
{
    if sessions.len() == 0 {
        0
    } else {
        total_minutes(sessions.drop_last()) + sessions.last().minutes
    }
}

/// The sessions that started on the given UTC day, in order.
pub open spec fn on_day(sessions: Seq<Timed>, day: int) -> Seq<Timed>
    decreases sessions.len(),
{
    if sessions.len() == 0 {
        Seq::empty()
    } else if sessions.last().start.day_index() == day {
        on_day(sessions.drop_last(), day).push(sessions.last())
    } else {
        on_day(sessions.drop_last(), day)
    }
}

/// Division that rounds towards zero, for a positive divisor.
pub open spec fn truncated_div(a: int, b: int) -> int {
    if a >= 0 {
        a / b
    } else {
        -((-a) / b)
    }
}

/// What is left after `truncated_div`: it has the sign of `a`.
pub open spec fn truncated_rem(a: int, b: int) -> int {
    a - b * truncated_div(a, b)
}

/// Puts a timed session together from what was read of an entry: there
/// is one if both times were read and the minutes between them counted.
pub fn timed_session(
    start: Option<Stamp>,
    end: Option<Stamp>,
    minutes: Option<i64>,
    project_path: &str,
) -> (session: Option<TimedSession>)
    ensures
        match (start, end, minutes) {
            (Some(s), Some(e), Some(m)) => session matches Some(t) && t@ == (Timed {
                start: s.moment,
                end: e.moment,
                minutes: m as int,
                project_path: project_path@,
            }),
            _ => session is None,
        },
{
    match (start, end, minutes) {
        (Some(s), Some(e), Some(m)) => Some(
            TimedSession {
                start: s.moment,
                end: e.moment,
                minutes: m,
                project_path: project_path.to_owned(),
            },
        ),
        _ => None,
    }
}

/// Reads the two times of an entry and counts the minutes between them.
pub fn read_entry(entry: &SessionEntry) -> (session: Option<TimedSession>)
    ensures
        match timed(*entry) {
            Some(t) => session matches Some(s) && s@ == t,
            None => session is None,
        },
{
    let start = parse_rfc3339(entry.start.as_str());
    let end = parse_rfc3339(entry.end.as_str());
    let minutes = match (start, end) {
        (Some(s), Some(e)) => minutes_between(s.moment, e.moment),
        _ => None,
    };
    timed_session(start, end, minutes, entry.project_path.as_str())
}

/// Reads every entry of a stored history and keeps those that can be
/// read, in stored order.
pub fn read_history(history: &Vec<SessionEntry>) -> (sessions: Vec<TimedSession>)
    ensures
        views(sessions@) == timed_entries(history@),
{
    let mut sessions: Vec<TimedSession> = Vec::new();
    let mut i: usize = 0;
    while i < history.len()
        invariant
            i <= history.len(),
            views(sessions@) == timed_entries(history@.take(i as int)),
        decreases history.len() - i,
    {
        proof {
            assert(history@.take(i as int + 1).drop_last() =~= history@.take(i as int));
        }
        match read_entry(&history[i]) {
            Some(session) => sessions.push(session),
            None => {},
        }
        i += 1;
    }
    proof {
        assert(history@.take(history.len() as int) =~= history@);
    }
    sessions
}

/// The sessions of one UTC day.
pub struct DayReport {
    /// The day, counted from 1970-01-01.
    pub day: i64,
    /// The sessions that started on that day, in stored order.
    pub sessions: Vec<TimedSession>,
}

/// Whether `days` is `sessions` grouped by the day they started on: one
/// group for each day on which a session started and no other, the days
/// in ascending order, each group holding that day's sessions in order.
pub open spec fn grouped_by_day(days: Seq<DayReport>, sessions: Seq<Timed>) -> bool {
    &&& forall|i: int, j: int| 0 <= i < j < days.len() ==> days[i].day < days[j].day
    &&& forall|i: int|
        0 <= i < days.len() ==> views((#[trigger] days[i]).sessions@).len() > 0 && views(
            days[i].sessions@,
        ) == on_day(sessions, days[i].day as int)
    &&& forall|k: int|
        0 <= k < sessions.len() ==> has_day(days, (#[trigger] sessions[k]).start.day_index())
}

/// Whether one of the groups is for the given day.
pub open spec fn has_day(days: Seq<DayReport>, day: int) -> bool {
    exists|i: int| 0 <= i < days.len() && (#[trigger] days[i]).day == day
}

/// The history report: the readable sessions by day, and the totals.
pub struct HistoryReport {
    /// The readable sessions grouped by the UTC day they started on.
    pub days: Vec<DayReport>,
    /// The number of stored sessions, readable or not.
    pub total_sessions: usize,
    /// The minutes of all readable sessions added up.
    pub total_minutes: i128,
    /// `total_minutes` over `total_sessions`, rounded towards zero; zero
    /// for an empty history.
    pub average_minutes: i128,
}

proof fn lemma_on_day_without(sessions: Seq<Timed>, day: int)
    requires
        forall|k: int| 0 <= k < sessions.len() ==> (#[trigger] sessions[k]).start.day_index() != day,
    ensures
        on_day(sessions, day) == Seq::<Timed>::empty(),
    decreases sessions.len(),
{
    if sessions.len() > 0 {
        lemma_on_day_without(sessions.drop_last(), day);
    }
}

proof fn lemma_on_day_push(sessions: Seq<Timed>, session: Timed, day: int)
    ensures
        on_day(sessions.push(session), day) == if session.start.day_index() == day {
            on_day(sessions, day).push(session)
        } else {
            on_day(sessions, day)
        },
{
    assert(sessions.push(session).drop_last() =~= sessions);
}

/// Files `session` under its day, keeping the days in ascending order.
fn file_under_day(
    days: &mut Vec<DayReport>,
    session: TimedSession,
    Ghost(sessions): Ghost<Seq<Timed>>,
)
    requires
        grouped_by_day(old(days)@, sessions),
    ensures
        grouped_by_day(final(days)@, sessions.push(session@)),
{
    let day = session.start.day();
    let ghost before = days@;
    let ghost added = session@;
    let ghost after = sessions.push(added);
    let mut p: usize = 0;
    while p < days.len() && days[p].day < day
        invariant
            days@ == before,
            p <= days.len(),
            forall|i: int| 0 <= i < p ==> before[i].day < day,
        decreases days.len() - p,
    {
        p += 1;
    }
    proof {
        assert forall|d: int| true implies #[trigger] on_day(after, d) == if added.start.day_index()
            == d {
            on_day(sessions, d).push(added)
        } else {
            on_day(sessions, d)
        } by {
            lemma_on_day_push(sessions, added, d);
        }
    }
    if p < days.len() && days[p].day == day {
        days[p].sessions.push(session);
        proof {
            let now = days@;
            assert forall|i: int| 0 <= i < now.len() implies views(
                (#[trigger] now[i]).sessions@,
            ).len() > 0 && views(now[i].sessions@) == on_day(after, now[i].day as int) by {}
            assert forall|k: int| 0 <= k < after.len() implies has_day(
                now,
                (#[trigger] after[k]).start.day_index(),
            ) by {
                if k < sessions.len() {
                    let i = choose|i: int|
                        0 <= i < before.len() && (#[trigger] before[i]).day
                            == sessions[k].start.day_index();
                    assert(now[i].day == before[i].day);
                }
            }
        }
    } else {
        let mut group: Vec<TimedSession> = Vec::new();
        group.push(session);
        days.insert(p, DayReport { day, sessions: group });
        proof {
            let now = days@;
            assert(now == before.insert(p as int, now[p as int]));
            lemma_on_day_without(sessions, day as int);
            assert forall|i: int| 0 <= i < now.len() implies views(
                (#[trigger] now[i]).sessions@,
            ).len() > 0 && views(now[i].sessions@) == on_day(after, now[i].day as int) by {}
            assert forall|k: int| 0 <= k < after.len() implies has_day(
                now,
                (#[trigger] after[k]).start.day_index(),
            ) by {
                if k < sessions.len() {
                    let i = choose|i: int|
                        0 <= i < before.len() && (#[trigger] before[i]).day
                            == sessions[k].start.day_index();
                    if i < p {
                        assert(now[i] == before[i]);
                    } else {
                        assert(now[i + 1] == before[i]);
                    }
                }
            }
        }
    }
}

/// The report over the sessions that could be read out of `stored`
/// stored ones: the sessions by day, their minutes added up, and the
/// average over all stored sessions.
pub fn summarize(sessions: &Vec<TimedSession>, stored: usize) -> (report: HistoryReport)
    ensures
        grouped_by_day(report.days@, views(sessions@)),
        report.total_sessions == stored,
        report.total_minutes == total_minutes(views(sessions@)),
        report.average_minutes == if stored > 0 {
            truncated_div(report.total_minutes as int, stored as int)
        } else {
            0
        },
{
    let mut days: Vec<DayReport> = Vec::new();
    let mut total: i128 = 0;
    let mut i: usize = 0;
    while i < sessions.len()
        invariant
            i <= sessions.len(),
            grouped_by_day(days@, views(sessions@).take(i as int)),
            total == total_minutes(views(sessions@).take(i as int)),
            -(i as int) * 0x8000_0000_0000_0000 <= total <= (i as int) * 0x8000_0000_0000_0000,
        decreases sessions.len() - i,
    {
        let ghost seen = views(sessions@).take(i as int);
        let ghost next = views(sessions@).take(i as int + 1);
        proof {
            assert(next.drop_last() =~= seen);
            assert(next =~= seen.push(sessions@[i as int]@));
        }
        let session = &sessions[i];
        total = total + session.minutes as i128;
        let copy = TimedSession {
            start: session.start,
            end: session.end,
            minutes: session.minutes,
            project_path: session.project_path.clone(),
        };
        file_under_day(&mut days, copy, Ghost(seen));
        i += 1;
    }
    proof {
        assert(views(sessions@).take(sessions.len() as int) =~= views(sessions@));
    }
    let average_minutes = if stored > 0 {
        total / (stored as i128)
    } else {
        0
    };
    HistoryReport { days, total_sessions: stored, total_minutes: total, average_minutes }
}

/// The report over a stored history. Entries whose times cannot be read
/// are left out of the days and of the total; they still count as stored
/// sessions, so they pull the average down.
pub fn history_report(history: &Vec<SessionEntry>) -> (report: HistoryReport)
    ensures
        grouped_by_day(report.days@, timed_entries(history@)),
        report.total_sessions == history.len(),
        report.total_minutes == total_minutes(timed_entries(history@)),
        report.average_minutes == if history.len() > 0 {
            truncated_div(report.total_minutes as int, history.len() as int)
        } else {
            0
        },
{
    let sessions = read_history(history);
    summarize(&sessions, history.len())
}

impl HistoryReport {
    /// The whole hours in the total, rounded towards zero.
    pub fn total_hours(&self) -> (hours: i128)
        ensures
            hours == truncated_div(self.total_minutes as int, 60),
    {
        self.total_minutes / 60
    }

    /// The minutes of the total beyond the whole hours.
    pub fn remaining_minutes(&self) -> (minutes: i128)
        ensures
            minutes == truncated_rem(self.total_minutes as int, 60),
    {
        self.total_minutes % 60
    }
}

/// What the status report shows.
pub enum LatestSession {
    /// Nothing has been stored yet.
    NoHistory,
    /// The latest stored session cannot be read.
    Unreadable,
    /// The latest stored session.
    Latest(TimedSession),
}

/// The session stored last, read.
pub fn latest_session(history: &Vec<SessionEntry>) -> (latest: LatestSession)
    ensures
        history.len() == 0 ==> latest is NoHistory,
        history.len() > 0 ==> match timed(history@.last()) {
            Some(t) => latest matches LatestSession::Latest(s) && s@ == t,
            None => latest is Unreadable,
        },
{
    if history.len() == 0 {
        LatestSession::NoHistory
    } else {
        match read_entry(&history[history.len() - 1]) {
            Some(session) => LatestSession::Latest(session),
            None => LatestSession::Unreadable,
        }
    }
}

} // verus!
