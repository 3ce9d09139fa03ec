//! What holds of whole runs of the watch loop.
//!
//! A run is the sequence of ticks the loop went through. `run` folds the
//! single step over it and collects the sessions handed over on the way.
//! The laws below are stated over runs and proved from the step alone.

use vstd::prelude::*;
use crate::session_tracker::SessionView;
use crate::state::{OpenSession, closing, idle_expired};
use crate::watcher::{Tick, step_session};

verus! {

/// Where a run ends: the session still in progress and the sessions handed
/// over, oldest first.
pub struct Run {
    pub session: Option<OpenSession>,
    pub flushed: Seq<SessionView>,
}

/// The loop run over `ticks`, starting with `session` in progress.
pub open spec fn run(
    session: Option<OpenSession>,
    ticks: Seq<Tick>,
    idle_threshold: nat,
    project_path: Seq<char>,
) -> Run
    decreases ticks.len(),
{
    if ticks.len() == 0 {
        Run { session, flushed: Seq::empty() }
    } else {
        let before = run(session, ticks.drop_last(), idle_threshold, project_path);
        let (next, out) = step_session(before.session, ticks.last(), idle_threshold, project_path);
        Run {
            session: next,
            flushed: match out {
                Some(closed) => before.flushed.push(closed),
                None => before.flushed,
            },
        }
    }
}

/// The clock never runs backwards from one tick to the next.
pub open spec fn ordered(ticks: Seq<Tick>) -> bool {
    forall|i: int, j: int| 0 <= i <= j < ticks.len() ==> ticks[i].at <= ticks[j].at
}

/// No tick saw a change.
pub open spec fn all_quiet(ticks: Seq<Tick>) -> bool {
    forall|i: int| 0 <= i < ticks.len() ==> (#[trigger] ticks[i]).activity is None
}

/// The time of the last tick that saw a change.
pub open spec fn latest_activity(ticks: Seq<Tick>) -> Option<nat>
    decreases ticks.len(),
{
    if ticks.len() == 0 {
        None
    } else if ticks.last().activity is Some {
        Some(ticks.last().at)
    } else {
        latest_activity(ticks.drop_last())
    }
}

/// The paths of all changes seen, in arrival order.
pub open spec fn all_paths(ticks: Seq<Tick>) -> Seq<Seq<char>>
    decreases ticks.len(),
{
    if ticks.len() == 0 {
        Seq::empty()
    } else {
        match ticks.last().activity {
            Some(paths) => all_paths(ticks.drop_last()) + paths,
            None => all_paths(ticks.drop_last()),
        }
    }
}

/// How long before tick `i` the latest change had been seen.
pub open spec fn silence_before(ticks: Seq<Tick>, i: int) -> int {
    ticks[i].at - latest_activity(ticks.take(i))->0
}

proof fn lemma_latest_activity(ticks: Seq<Tick>)
    requires
        ticks.len() > 0,
        ticks[0].activity is Some,
        ordered(ticks),
    ensures
        latest_activity(ticks) matches Some(t) && ticks[0].at <= t <= ticks.last().at,
    decreases ticks.len(),
{
    if ticks.last().activity is None {
        lemma_latest_activity(ticks.drop_last());
    }
}

/// While every tick comes less than the idle threshold after the latest
/// change, nothing is handed over: the run that starts with a change ends
/// with one session in progress, which began at the first change, was last
/// extended at the latest one and holds every path reported.
pub proof fn law_active_session_is_not_split(
    ticks: Seq<Tick>,
    idle_threshold: nat,
    project_path: Seq<char>,
)
    requires
        ticks.len() > 0,
        ticks[0].activity is Some,
        ordered(ticks),
        forall|i: int| 1 <= i < ticks.len() ==> #[trigger] silence_before(ticks, i) < idle_threshold,
    ensures
        run(None, ticks, idle_threshold, project_path) == (Run {
            session: Some(
                OpenSession {
                    start: ticks[0].at,
                    last_activity: latest_activity(ticks)->0,
                    files: all_paths(ticks),
                },
            ),
            flushed: Seq::empty(),
        }),
    decreases ticks.len(),
{
    let shorter = ticks.drop_last();
    if ticks.len() == 1 {
        assert(all_paths(ticks) =~= ticks[0].activity->0);
    } else {
        assert forall|i: int| 1 <= i < shorter.len() implies #[trigger] silence_before(shorter, i)
            < idle_threshold by {
            assert(shorter.take(i) =~= ticks.take(i));
            assert(silence_before(ticks, i) < idle_threshold);
        }
        law_active_session_is_not_split(shorter, idle_threshold, project_path);
        lemma_latest_activity(shorter);
        assert(silence_before(ticks, ticks.len() - 1) < idle_threshold);
    }
}

/// A burst of changes, each less than the idle threshold after the one
/// before, is one session: nothing is handed over in between, and the
/// session in progress spans from the first change to the last. Closing it
/// at any later time hands over that one session, begun at the first
/// change and holding every path of the burst.
pub proof fn law_event_burst_is_one_session(
    ticks: Seq<Tick>,
    idle_threshold: nat,
    project_path: Seq<char>,
)
    requires
        ticks.len() > 0,
        forall|i: int| 0 <= i < ticks.len() ==> (#[trigger] ticks[i]).activity is Some,
        forall|i: int|
            1 <= i < ticks.len() ==> ticks[i - 1].at <= (#[trigger] ticks[i]).at < ticks[i - 1].at
                + idle_threshold,
    ensures
        run(None, ticks, idle_threshold, project_path) == (Run {
            session: Some(
                OpenSession {
                    start: ticks[0].at,
                    last_activity: ticks.last().at,
                    files: all_paths(ticks),
                },
            ),
            flushed: Seq::empty(),
        }),
        forall|now: nat|
            now >= ticks.last().at ==> #[trigger] closing(
                run(None, ticks, idle_threshold, project_path).session,
                now,
                project_path,
            ) == Some(
                SessionView {
                    start: ticks[0].at,
                    end: now,
                    project_path,
                    files: all_paths(ticks),
                },
            ),
{
    assert(ordered(ticks)) by {
        lemma_steps_are_ordered(ticks);
    }
    law_active_session_is_not_split(ticks, idle_threshold, project_path);
}

proof fn lemma_steps_are_ordered(ticks: Seq<Tick>)
    requires
        forall|i: int| 1 <= i < ticks.len() ==> ticks[i - 1].at <= (#[trigger] ticks[i]).at,
    ensures
        ordered(ticks),
    decreases ticks.len(),
{
    if ticks.len() > 1 {
        let shorter = ticks.drop_last();
        assert forall|i: int| 1 <= i < shorter.len() implies shorter[i - 1].at <= (
        #[trigger] shorter[i]).at by {}
        lemma_steps_are_ordered(shorter);
        let n = ticks.len() - 1;
        assert forall|i: int, j: int| 0 <= i <= j < ticks.len() implies ticks[i].at
            <= ticks[j].at by {
            if j < n {
                assert(shorter[i].at <= shorter[j].at);
            }
        }
    }
}

/// The loop looks at the clock at least once every `poll_interval`,
/// starting from `since`.
pub open spec fn polled(since: nat, ticks: Seq<Tick>, poll_interval: nat) -> bool {
    &&& ticks.len() > 0 ==> since <= ticks[0].at <= since + poll_interval
    &&& forall|i: int|
        1 <= i < ticks.len() ==> ticks[i - 1].at <= (#[trigger] ticks[i]).at <= ticks[i - 1].at
            + poll_interval
}

proof fn lemma_silent_prefix(
    open: OpenSession,
    ticks: Seq<Tick>,
    idle_threshold: nat,
    project_path: Seq<char>,
)
    requires
        forall|i: int|
            0 <= i < ticks.len() ==> (#[trigger] ticks[i]).at < open.last_activity
                + idle_threshold && ticks[i].activity is None,
    ensures
        run(Some(open), ticks, idle_threshold, project_path) == (Run {
            session: Some(open),
            flushed: Seq::empty(),
        }),
    decreases ticks.len(),
{
    if ticks.len() > 0 {
        lemma_silent_prefix(open, ticks.drop_last(), idle_threshold, project_path);
    }
}

/// Silence is noticed in time. With a session in progress whose latest
/// change was at `L`, a loop that looks at the clock at least once every
/// polling interval, sees no change before `L + idle_threshold` and runs at
/// least that long hands the session over first of all, unchanged, with an
/// end between `L + idle_threshold` and `L + idle_threshold + poll_interval`.
pub proof fn law_silence_is_flushed(
    open: OpenSession,
    ticks: Seq<Tick>,
    idle_threshold: nat,
    poll_interval: nat,
    project_path: Seq<char>,
)
    requires
        ticks.len() > 0,
        polled(open.last_activity, ticks, poll_interval),
        forall|i: int|
            0 <= i < ticks.len() && (#[trigger] ticks[i]).at < open.last_activity + idle_threshold
                ==> ticks[i].activity is None,
        ticks.last().at >= open.last_activity + idle_threshold,
    ensures
        ({
            let flushed = run(Some(open), ticks, idle_threshold, project_path).flushed;
            &&& flushed.len() >= 1
            &&& flushed[0] == open.closed(flushed[0].end, project_path)
            &&& open.last_activity + idle_threshold <= flushed[0].end <= open.last_activity
                + idle_threshold + poll_interval
        }),
    decreases ticks.len(),
{
    let shorter = ticks.drop_last();
    let n = ticks.len() - 1;
    lemma_steps_are_ordered(ticks);
    if n > 0 && shorter.last().at >= open.last_activity + idle_threshold {
        law_silence_is_flushed(open, shorter, idle_threshold, poll_interval, project_path);
    } else {
        lemma_silent_prefix(open, shorter, idle_threshold, project_path);
    }
}

/// Checking for idleness again and again without a new change hands over
/// at most one session, and none at all once nothing is in progress: a
/// session that has been handed over is not handed over a second time.
pub proof fn law_quiet_ticks_flush_at_most_once(
    session: Option<OpenSession>,
    ticks: Seq<Tick>,
    idle_threshold: nat,
    project_path: Seq<char>,
)
    requires
        all_quiet(ticks),
    ensures
        ({
            let end = run(session, ticks, idle_threshold, project_path);
            &&& end.flushed.len() <= 1
            &&& session is None ==> end.flushed.len() == 0
            &&& end.flushed.len() == 1 ==> end.session is None && session is Some
                && end.flushed[0].start == session->0.start && end.flushed[0].files
                == session->0.files
            &&& end.flushed.len() == 0 ==> end.session == session
        }),
    decreases ticks.len(),
{
    if ticks.len() > 0 {
        law_quiet_ticks_flush_at_most_once(
            session,
            ticks.drop_last(),
            idle_threshold,
            project_path,
        );
    }
}

/// Whether the session in progress and the sessions handed over so far are
/// in order up to `now`: each session ends no earlier than it starts, none
/// starts before the one before it has ended, and the session in progress
/// started no earlier than the last one ended and was last extended no
/// later than `now`.
pub open spec fn in_order(end: Run, now: nat) -> bool {
    &&& forall|i: int| 0 <= i < end.flushed.len() ==> (#[trigger] end.flushed[i]).well_formed()
    &&& forall|i: int| 0 <= i < end.flushed.len() ==> (#[trigger] end.flushed[i]).end <= now
    &&& forall|i: int, j: int|
        0 <= i < j < end.flushed.len() ==> end.flushed[i].end <= end.flushed[j].start
    &&& end.session matches Some(open) ==> {
        &&& open.well_formed()
        &&& open.last_activity <= now
        &&& forall|i: int| 0 <= i < end.flushed.len() ==> (#[trigger] end.flushed[i]).end
            <= open.start
    }
}

/// Sessions come out in order. With a clock that does not run backwards,
/// every session handed over ends no earlier than it starts, and each
/// starts no earlier than the one before it ended.
pub proof fn law_sessions_in_order(
    ticks: Seq<Tick>,
    idle_threshold: nat,
    project_path: Seq<char>,
)
    requires
        ordered(ticks),
    ensures
        in_order(
            run(None, ticks, idle_threshold, project_path),
            if ticks.len() > 0 {
                ticks.last().at
            } else {
                0
            },
        ),
    decreases ticks.len(),
{
    if ticks.len() > 0 {
        law_sessions_in_order(ticks.drop_last(), idle_threshold, project_path);
    }
}

/// The paths held by the sessions handed over, in order.
pub open spec fn flushed_paths(flushed: Seq<SessionView>) -> Seq<Seq<char>>
    decreases flushed.len(),
{
    if flushed.len() == 0 {
        Seq::empty()
    } else {
        flushed_paths(flushed.drop_last()) + flushed.last().files
    }
}

/// The paths held by the session in progress.
pub open spec fn held_paths(session: Option<OpenSession>) -> Seq<Seq<char>> {
    match session {
        Some(open) => open.files,
        None => Seq::empty(),
    }
}

/// No path is lost and none is counted twice: the paths of the sessions
/// handed over, followed by those of the session in progress, are exactly
/// the paths that were reported, in the order in which they arrived.
pub proof fn law_every_path_is_kept_once(
    ticks: Seq<Tick>,
    idle_threshold: nat,
    project_path: Seq<char>,
)
    ensures
        ({
            let end = run(None, ticks, idle_threshold, project_path);
            flushed_paths(end.flushed) + held_paths(end.session) == all_paths(ticks)
        }),
    decreases ticks.len(),
{
    let end = run(None, ticks, idle_threshold, project_path);
    if ticks.len() > 0 {
        let before = run(None, ticks.drop_last(), idle_threshold, project_path);
        law_every_path_is_kept_once(ticks.drop_last(), idle_threshold, project_path);
        let tick = ticks.last();
        let added: Seq<Seq<char>> = match tick.activity {
            Some(paths) => paths,
            None => Seq::empty(),
        };
        if idle_expired(before.session, tick.at, idle_threshold) {
            assert(end.flushed.drop_last() =~= before.flushed);
            assert(flushed_paths(end.flushed) == flushed_paths(before.flushed) + held_paths(
                before.session,
            ));
        }
        assert(flushed_paths(end.flushed) + held_paths(end.session) =~= (flushed_paths(
            before.flushed,
        ) + held_paths(before.session)) + added);
    }
}

/// A stop request leaves nothing behind: once the session in progress at
/// the end of a run has been closed, the sessions handed over hold every
/// path that was reported, each once and in arrival order.
pub proof fn law_stop_hands_over_the_rest(
    ticks: Seq<Tick>,
    now: nat,
    idle_threshold: nat,
    project_path: Seq<char>,
)
    ensures
        ({
            let end = run(None, ticks, idle_threshold, project_path);
            match closing(end.session, now, project_path) {
                Some(last) => flushed_paths(end.flushed.push(last)) == all_paths(ticks),
                None => flushed_paths(end.flushed) == all_paths(ticks),
            }
        }),
{
    let end = run(None, ticks, idle_threshold, project_path);
    law_every_path_is_kept_once(ticks, idle_threshold, project_path);
    match closing(end.session, now, project_path) {
        Some(last) => {
            assert(end.flushed.push(last).drop_last() =~= end.flushed);
        },
        None => {
            assert(flushed_paths(end.flushed) + held_paths(end.session) =~= flushed_paths(
                end.flushed,
            ));
        },
    }
}

} // verus!
