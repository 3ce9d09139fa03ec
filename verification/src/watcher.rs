//! The watch loop's decisions.
//!
//! The loop itself — waiting for a notification for at most one polling
//! interval, reading the clock, storing what was closed — is the caller's.
//! Each time round it hands the machine what it saw and when, and does what
//! the outcome says. A stop request goes through the same machine, so a
//! session is handed over by whichever of the two gets to it first and by
//! no one after that.

use vstd::prelude::*;
use crate::session_tracker::{Session, SessionView};
use crate::state::{OpenSession, SessionState, after_activity, closing, idle_expired};
use crate::text::{texts, lemma_texts_concat};

verus! {

/// Idle threshold used unless configured otherwise: five minutes.
pub const DEFAULT_IDLE_THRESHOLD_MS: u64 = 300_000;

/// Polling interval used unless configured otherwise: one second.
pub const DEFAULT_POLL_INTERVAL_MS: u64 = 1_000;

/// What the tracker is configured with.
pub struct WatchConfig {
    /// Silence after which an open session counts as finished.
    pub idle_threshold: u64,
    /// The longest the loop waits for a notification before it looks at
    /// the clock again.
    pub poll_interval: u64,
    /// The watched root, recorded verbatim in every session.
    pub project_path: String,
}

impl WatchConfig {
    /// The default thresholds for the given root.
    pub fn new(project_path: &str) -> (config: Self)
        ensures
            config.idle_threshold == DEFAULT_IDLE_THRESHOLD_MS,
            config.poll_interval == DEFAULT_POLL_INTERVAL_MS,
            config.project_path@ == project_path@,
    {
        WatchConfig {
            idle_threshold: DEFAULT_IDLE_THRESHOLD_MS,
            poll_interval: DEFAULT_POLL_INTERVAL_MS,
            project_path: project_path.to_owned(),
        }
    }
}

/// The coarse kind of a change notification.
#[derive(Debug, Clone, Copy, PartialEq, Eq, Structural)]
pub enum ChangeKind {
    Any,
    Access,
    Create,
    Modify,
    Remove,
    Other,
}

impl ChangeKind {
    /// Creating, modifying and removing count as work on the project;
    /// reads and unclassified notifications do not.
    pub open spec fn counts_as_activity(self) -> bool {
        self is Create || self is Modify || self is Remove
    }

    #[verifier::when_used_as_spec(counts_as_activity)]
    pub fn is_activity(self) -> (counts: bool)
        ensures
            counts == self.counts_as_activity(),
    {
        match self {
            ChangeKind::Create | ChangeKind::Modify | ChangeKind::Remove => true,
            _ => false,
        }
    }
}

/// One change notification: its kind and the paths it names, possibly none.
pub struct ChangeEvent {
    pub kind: ChangeKind,
    pub paths: Vec<String>,
}

/// What one bounded wait produced.
pub enum Poll {
    /// The notifications that arrived, oldest first.
    Events(Vec<ChangeEvent>),
    /// The notification mechanism reported an error.
    WatchError,
    /// The wait ran out with nothing to report.
    Quiet,
}

/// One time round the loop, as the contracts see it: when the clock was
/// read, and the paths of the changes that were seen, if any were.
pub struct Tick {
    pub at: nat,
    pub activity: Option<Seq<Seq<char>>>,
}

/// Whether any of the events counts as activity.
pub open spec fn any_activity(events: Seq<ChangeEvent>) -> bool {
    exists|i: int| 0 <= i < events.len() && (#[trigger] events[i]).kind.counts_as_activity()
}

/// The paths of the events that count as activity, in arrival order.
pub open spec fn folded_paths(events: Seq<ChangeEvent>) -> Seq<Seq<char>>
    decreases events.len(),
{
    if events.len() == 0 {
        Seq::empty()
    } else if events.last().kind.counts_as_activity() {
        folded_paths(events.drop_last()) + texts(events.last().paths@)
    } else {
        folded_paths(events.drop_last())
    }
}

impl Poll {
    /// The changes this wait amounts to: all events that count folded into
    /// one, or none.
    pub open spec fn activity(self) -> Option<Seq<Seq<char>>> {
        match self {
            Poll::Events(events) => if any_activity(events@) {
                Some(folded_paths(events@))
            } else {
                None
            },
            _ => None,
        }
    }

    /// The tick this wait makes when the clock reads `now` after it.
    pub open spec fn tick(self, now: nat) -> Tick {
        Tick { at: now, activity: self.activity() }
    }
}

/// One time round the loop. The idle check comes first and is made whether
/// or not a change arrived: a session whose silence has reached the
/// threshold is closed at the tick's time. Then the tick's changes, if any,
/// extend the session that is still open or open a new one.
pub open spec fn step_session(
    session: Option<OpenSession>,
    tick: Tick,
    idle_threshold: nat,
    project_path: Seq<char>,
) -> (Option<OpenSession>, Option<SessionView>) {
    let expired = idle_expired(session, tick.at, idle_threshold);
    let kept = if expired {
        None
    } else {
        session
    };
    let flushed = if expired {
        closing(session, tick.at, project_path)
    } else {
        None
    };
    let next = match tick.activity {
        Some(paths) => after_activity(kept, tick.at, paths),
        None => kept,
    };
    (next, flushed)
}

/// What the caller is to do after a step.
pub struct StepOutcome {
    /// A session that was closed in this step and is to be stored, once.
    pub flushed: Option<Session>,
    /// Whether a change was recorded.
    pub activity: bool,
    /// Whether the notification mechanism reported an error; the loop
    /// reports it and carries on.
    pub watch_error: bool,
    /// False once a stop has been requested: the loop is to end.
    pub keep_running: bool,
}

/// The view of an optional session.
pub open spec fn session_view(session: Option<Session>) -> Option<SessionView> {
    match session {
        Some(s) => Some(s@),
        None => None,
    }
}

/// The tracker as the contracts see it.
pub struct MachineView {
    pub idle_threshold: nat,
    pub poll_interval: nat,
    pub project_path: Seq<char>,
    pub session: Option<OpenSession>,
    pub stopped: bool,
}

/// The session tracker: configuration, the session in progress, and
/// whether a stop has been requested.
pub struct SessionMachine {
    config: WatchConfig,
    state: SessionState,
    stop_requested: bool,
}

impl View for SessionMachine {
    type V = MachineView;

    closed spec fn view(&self) -> MachineView {
        MachineView {
            idle_threshold: self.config.idle_threshold as nat,
            poll_interval: self.config.poll_interval as nat,
            project_path: self.config.project_path@,
            session: self.state@,
            stopped: self.stop_requested,
        }
    }
}

/// Collects the paths of the events that count as activity.
fn fold_events(events: Vec<ChangeEvent>) -> (folded: Option<Vec<String>>)
    ensures
        match (Poll::Events(events)).activity() {
            Some(paths) => folded matches Some(f) && texts(f@) == paths,
            None => folded is None,
        },
{
    let mut events = events;
    let ghost all = events@;
    let n = events.len();
    let mut paths: Vec<String> = Vec::new();
    let mut seen = false;
    let mut i: usize = 0;
    while i < n
        invariant
            n == events.len(),
            i <= n,
            all.len() == n,
            forall|j: int| i <= j < n ==> events@[j] == all[j],
            seen == any_activity(all.take(i as int)),
            texts(paths@) == folded_paths(all.take(i as int)),
        decreases n - i,
    {
        let ghost before = all.take(i as int);
        let ghost after = all.take(i as int + 1);
        proof {
            assert(after.drop_last() =~= before);
            assert(after.last() == all[i as int]);
        }
        let kind = events[i].kind;
        if kind.is_activity() {
            let mut taken: Vec<String> = Vec::new();
            taken.append(&mut events[i].paths);
            proof {
                assert(Seq::<String>::empty() + all[i as int].paths@ =~= all[i as int].paths@);
                lemma_texts_concat(paths@, taken@);
            }
            paths.append(&mut taken);
            seen = true;
            proof {
                assert(after[i as int].kind.counts_as_activity());
            }
        } else {
            proof {
                if any_activity(after) {
                    let k = choose|k: int|
                        0 <= k < after.len() && (#[trigger] after[k]).kind.counts_as_activity();
                    assert(before[k] == after[k]);
                }
            }
        }
        proof {
            if any_activity(before) {
                let k = choose|k: int|
                    0 <= k < before.len() && (#[trigger] before[k]).kind.counts_as_activity();
                assert(after[k] == before[k]);
            }
        }
        i += 1;
    }
    proof {
        assert(all.take(n as int) =~= all);
        assert(texts(Seq::<String>::empty()) =~= Seq::<Seq<char>>::empty());
    }
    if seen {
        Some(paths)
    } else {
        None
    }
}

impl SessionMachine {
    /// The parts agree, and a stopped tracker holds no session.
    pub closed spec fn wf(&self) -> bool {
        &&& self.state.wf()
        &&& self.stop_requested ==> self.state@ is None
    }

    /// What well-formedness means for the view.
    pub proof fn lemma_wf(&self)
        requires
            self.wf(),
        ensures
            self@.stopped ==> self@.session is None,
            self@.session matches Some(open) ==> open.well_formed(),
            self@.idle_threshold <= u64::MAX,
            self@.poll_interval <= u64::MAX,
    {
        self.state.lemma_wf();
    }

    /// A tracker with no session open and no stop requested.
    pub fn new(config: WatchConfig) -> (machine: Self)
        ensures
            machine.wf(),
            machine@ == (MachineView {
                idle_threshold: config.idle_threshold as nat,
                poll_interval: config.poll_interval as nat,
                project_path: config.project_path@,
                session: None,
                stopped: false,
            }),
    {
        SessionMachine { config, state: SessionState::new(), stop_requested: false }
    }

    /// The configuration the tracker was made with.
    pub fn config(&self) -> (config: &WatchConfig)
        ensures
            config.idle_threshold == self@.idle_threshold,
            config.poll_interval == self@.poll_interval,
            config.project_path@ == self@.project_path,
    {
        &self.config
    }

    /// Whether a session is open.
    pub fn is_active(&self) -> (active: bool)
        requires
            self.wf(),
        ensures
            active == (self@.session is Some),
    {
        self.state.is_open()
    }

    /// Whether a stop has been requested.
    pub fn is_stopped(&self) -> (stopped: bool)
        ensures
            stopped == self@.stopped,
    {
        self.stop_requested
    }

    /// The session in progress.
    pub fn state(&self) -> (state: &SessionState)
        requires
            self.wf(),
        ensures
            state.wf(),
            state@ == self@.session,
    {
        &self.state
    }

    /// One time round the loop: `poll` is what the bounded wait produced
    /// and `now` the clock read after it. After a stop request nothing is
    /// processed any more.
    pub fn step(&mut self, now: u64, poll: Poll) -> (outcome: StepOutcome)
        requires
            old(self).wf(),
        ensures
            final(self).wf(),
            old(self)@.stopped ==> {
                &&& final(self)@ == old(self)@
                &&& outcome.flushed is None
                &&& !outcome.activity
                &&& !outcome.watch_error
                &&& !outcome.keep_running
            },
            !old(self)@.stopped ==> {
                &&& (final(self)@.session, session_view(outcome.flushed)) == step_session(
                    old(self)@.session,
                    poll.tick(now as nat),
                    old(self)@.idle_threshold,
                    old(self)@.project_path,
                )
                &&& final(self)@ == (MachineView { session: final(self)@.session, ..old(self)@ })
                &&& outcome.activity == (poll.activity() is Some)
                &&& outcome.watch_error == (poll is WatchError)
                &&& outcome.keep_running
            },
            outcome.flushed matches Some(s) ==> s@.well_formed(),
    {
        if self.stop_requested {
            return StepOutcome {
                flushed: None,
                activity: false,
                watch_error: false,
                keep_running: false,
            };
        }
        let flushed = if self.state.is_idle_expired(now, self.config.idle_threshold) {
            self.state.close(now, self.config.project_path.as_str())
        } else {
            None
        };
        let mut activity = false;
        let mut watch_error = false;
        match poll {
            Poll::Events(events) => {
                match fold_events(events) {
                    Some(paths) => {
                        self.state.record_activity(now, paths);
                        activity = true;
                    },
                    None => {},
                }
            },
            Poll::WatchError => {
                watch_error = true;
            },
            Poll::Quiet => {},
        }
        StepOutcome { flushed, activity, watch_error, keep_running: true }
    }

    /// A stop request seen at `now`: closes the session in progress, if
    /// any, and marks the tracker stopped. The returned session is to be
    /// stored before the process ends.
    pub fn shutdown(&mut self, now: u64) -> (flushed: Option<Session>)
        requires
            old(self).wf(),
        ensures
            final(self).wf(),
            final(self)@ == (MachineView { session: None, stopped: true, ..old(self)@ }),
            session_view(flushed) == closing(
                old(self)@.session,
                now as nat,
                old(self)@.project_path,
            ),
            old(self)@.session is None ==> flushed is None,
            old(self)@.session matches Some(open) ==> flushed matches Some(s) && s@.start
                == open.start && s@.files == open.files && (now >= open.last_activity ==> s@.end
                == now),
            flushed matches Some(s) ==> s@.well_formed(),
    {
        let flushed = self.state.close(now, self.config.project_path.as_str());
        self.stop_requested = true;
        flushed
    }
}

} // verus!
