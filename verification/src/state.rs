//! The session in progress.
//!
//! Between a first change and the close that follows it, the tracker holds
//! three things together: when the session started, when a change was last
//! seen, and every path reported so far. They are set together and cleared
//! together, so a session is open exactly when its start is set.

use vstd::prelude::*;
use crate::session_tracker::{Session, SessionView};
use crate::text::{texts, lemma_texts_concat};

verus! {

/// The session in progress, as the contracts see it.
pub struct OpenSession {
    /// When the first change was seen.
    pub start: nat,
    /// When the latest change was seen.
    pub last_activity: nat,
    /// The paths reported so far, in arrival order, repeats included.
    pub files: Seq<Seq<char>>,
}

impl OpenSession {
    /// The latest change is never earlier than the first.
    pub open spec fn well_formed(self) -> bool {
        self.start <= self.last_activity
    }

    /// The session as it is handed over when closed at `end`.
    pub open spec fn closed(self, end: nat, project_path: Seq<char>) -> SessionView {
        SessionView { start: self.start, end, project_path, files: self.files }
    }
}

/// The time at which an observation stamped `now` is taken to have been
/// made. Time does not run backwards within a session: a stamp earlier than
/// the latest change counts as made at that change.
pub open spec fn observation_time(session: Option<OpenSession>, now: nat) -> nat {
    match session {
        Some(open) => if now >= open.last_activity {
            now
        } else {
            open.last_activity
        },
        None => now,
    }
}

/// The session after a change reporting `paths` is seen at `now`: a new one
/// if none was open, else the open one extended. An empty `paths` counts
/// as a change like any other.
pub open spec fn after_activity(session: Option<OpenSession>, now: nat, paths: Seq<Seq<char>>)
    -> Option<OpenSession> {
    match session {
        Some(open) => Some(
            OpenSession {
                start: open.start,
                last_activity: observation_time(session, now),
                files: open.files + paths,
            },
        ),
        None => Some(OpenSession { start: now, last_activity: now, files: paths }),
    }
}

/// Whether a session is open and no change has been seen for at least
/// `idle_threshold` before `now`.
pub open spec fn idle_expired(session: Option<OpenSession>, now: nat, idle_threshold: nat)
    -> bool {
    session matches Some(open) && now - open.last_activity >= idle_threshold
}

/// What closing at `now` hands over: the open session ended at the
/// observation time, or nothing when none is open.
pub open spec fn closing(session: Option<OpenSession>, now: nat, project_path: Seq<char>)
    -> Option<SessionView> {
    match session {
        Some(open) => Some(open.closed(observation_time(session, now), project_path)),
        None => None,
    }
}

/// The three parts of the session in progress.
pub struct SessionState {
    open_session_start: Option<u64>,
    last_activity: Option<u64>,
    touched_files: Vec<String>,
}

impl View for SessionState {
    type V = Option<OpenSession>;

    closed spec fn view(&self) -> Option<OpenSession> {
        match (self.open_session_start, self.last_activity) {
            (Some(start), Some(last)) => Some(
                OpenSession {
                    start: start as nat,
                    last_activity: last as nat,
                    files: texts(self.touched_files@),
                },
            ),
            _ => None,
        }
    }
}

impl SessionState {
    /// The parts agree: start and latest change are set together and in
    /// order, and with no session open no path is held.
    pub closed spec fn wf(&self) -> bool {
        match (self.open_session_start, self.last_activity) {
            (Some(start), Some(last)) => start <= last,
            (None, None) => self.touched_files@.len() == 0,
            _ => false,
        }
    }

    /// What well-formedness means for the view.
    pub proof fn lemma_wf(&self)
        requires
            self.wf(),
        ensures
            self@ matches Some(open) ==> open.well_formed() && open.last_activity <= u64::MAX,
    {
    }

    /// The state at process start: no session open.
    pub fn new() -> (state: Self)
        ensures
            state.wf(),
            state@ is None,
    {
        SessionState { open_session_start: None, last_activity: None, touched_files: Vec::new() }
    }

    /// Whether a session is open.
    pub fn is_open(&self) -> (open: bool)
        requires
            self.wf(),
        ensures
            open == (self@ is Some),
    {
        self.open_session_start.is_some()
    }

    /// When the open session started, if one is open.
    pub fn open_session_start(&self) -> (start: Option<u64>)
        requires
            self.wf(),
        ensures
            match self@ {
                Some(open) => start == Some(open.start as u64) && start->0 == open.start,
                None => start is None,
            },
    {
        self.open_session_start
    }

    /// When the latest change was seen, if a session is open.
    pub fn last_activity(&self) -> (last: Option<u64>)
        requires
            self.wf(),
        ensures
            match self@ {
                Some(open) => last == Some(open.last_activity as u64) && last->0
                    == open.last_activity,
                None => last is None,
            },
    {
        self.last_activity
    }

    /// The paths reported since the session opened.
    pub fn touched_files(&self) -> (files: &Vec<String>)
        requires
            self.wf(),
        ensures
            match self@ {
                Some(open) => texts(files@) == open.files,
                None => files@.len() == 0,
            },
    {
        &self.touched_files
    }

    /// Records a change seen at `now` that reported `paths`.
    pub fn record_activity(&mut self, now: u64, paths: Vec<String>)
        requires
            old(self).wf(),
        ensures
            final(self).wf(),
            final(self)@ == after_activity(old(self)@, now as nat, texts(paths@)),
    {
        let mut paths = paths;
        proof {
            lemma_texts_concat(self.touched_files@, paths@);
        }
        match self.last_activity {
            Some(last) => {
                if now > last {
                    self.last_activity = Some(now);
                }
            },
            None => {
                self.open_session_start = Some(now);
                self.last_activity = Some(now);
            },
        }
        self.touched_files.append(&mut paths);
    }

    /// Whether the open session has seen no change for `idle_threshold`.
    pub fn is_idle_expired(&self, now: u64, idle_threshold: u64) -> (expired: bool)
        requires
            self.wf(),
        ensures
            expired == idle_expired(self@, now as nat, idle_threshold as nat),
    {
        match self.last_activity {
            Some(last) => now >= last && now - last >= idle_threshold,
            None => false,
        }
    }

    /// Closes the open session at `now` and empties the state in the same
    /// step. Returns the closed session, or nothing if none was open.
    pub fn close(&mut self, now: u64, project_path: &str) -> (closed: Option<Session>)
        requires
            old(self).wf(),
        ensures
            final(self).wf(),
            final(self)@ is None,
            match closing(old(self)@, now as nat, project_path@) {
                Some(session) => closed matches Some(s) && s@ == session && s@.well_formed(),
                None => closed is None,
            },
    {
        let start = self.open_session_start.take();
        let last = self.last_activity.take();
        let mut files: Vec<String> = Vec::new();
        files.append(&mut self.touched_files);
        match (start, last) {
            (Some(start), Some(last)) => {
                let end = if now >= last {
                    now
                } else {
                    last
                };
                Some(Session { start, end, project_path: project_path.to_owned(), files })
            },
            _ => None,
        }
    }
}

} // verus!
