//! Closed sessions.

use vstd::prelude::*;
use crate::moment::{is_representable, representable_seconds};
use crate::text::texts;

verus! {

/// A finished stretch of work on one project.
#[derive(Debug, Clone)]
pub struct Session {
    /// When the first change of the session was seen.
    pub start: u64,
    /// When the session was closed.
    pub end: u64,
    /// The watched root the session belongs to.
    pub project_path: String,
    /// Every path reported while the session was open, repeats included.
    pub files: Vec<String>,
}

/// What a `Session` says, with text read as characters.
pub struct SessionView {
    pub start: nat,
    pub end: nat,
    pub project_path: Seq<char>,
    pub files: Seq<Seq<char>>,
}

impl View for Session {
    type V = SessionView;

    open spec fn view(&self) -> SessionView {
        SessionView {
            start: self.start as nat,
            end: self.end as nat,
            project_path: self.project_path@,
            files: texts(self.files@),
        }
    }
}

impl SessionView {
    /// A session never ends before it starts.
    pub open spec fn well_formed(self) -> bool {
        self.start <= self.end
    }
}

/// Builds sessions from their parts.
pub struct SessionTracker;

impl SessionTracker {
    /// Puts the four parts of a session together, unchanged.
    pub fn create_session(start: u64, end: u64, path: &str, files: Vec<String>) -> (session:
        Session)
        ensures
            session@ == (SessionView {
                start: start as nat,
                end: end as nat,
                project_path: path@,
                files: texts(files@),
            }),
            session.files == files,
    {
        Session { start, end, project_path: path.to_owned(), files }
    }
}

/// What is read of one commit: its time in seconds since the epoch, and
/// its author's name and its summary line where they are readable text.
pub struct CommitInfo {
    pub seconds: i64,
    pub author: Option<String>,
    pub summary: Option<String>,
}

/// One line of the commit report.
pub struct CommitLine {
    pub seconds: i64,
    pub author: String,
    pub message: String,
}

/// One line of the commit report, as the contracts see it.
pub struct CommitLineView {
    pub seconds: int,
    pub author: Seq<char>,
    pub message: Seq<char>,
}

impl View for CommitLine {
    type V = CommitLineView;

    open spec fn view(&self) -> CommitLineView {
        CommitLineView {
            seconds: self.seconds as int,
            author: self.author@,
            message: self.message@,
        }
    }
}

/// The report over the latest commits: the lines that could be made, and
/// whether the report stopped short at a commit whose time is not a valid
/// timestamp.
pub struct CommitReport {
    pub lines: Vec<CommitLine>,
    pub invalid_timestamp: bool,
}

/// How many commits a report covers at most.
pub const RECENT_COMMITS: usize = 10;

/// The name shown for an author whose name is not readable text.
pub open spec fn unknown_author() -> Seq<char> {
    "Unknown"@
}

/// The message shown for a commit without a readable summary.
pub open spec fn missing_message() -> Seq<char> {
    "No commit message"@
}

/// The line for one commit.
pub open spec fn commit_line(commit: CommitInfo) -> CommitLineView {
    CommitLineView {
        seconds: commit.seconds as int,
        author: match commit.author {
            Some(name) => name@,
            None => unknown_author(),
        },
        message: match commit.summary {
            Some(summary) => summary@,
            None => missing_message(),
        },
    }
}

/// How many commits a report over `commits` looks at.
pub open spec fn commits_considered(commits: Seq<CommitInfo>) -> int {
    if commits.len() <= RECENT_COMMITS {
        commits.len() as int
    } else {
        RECENT_COMMITS as int
    }
}

/// The line for a commit whose time has been checked: there is one if the
/// time is a valid timestamp. An author without a readable name is shown
/// as `Unknown`, a commit without a readable summary as `No commit
/// message`.
pub fn line_for(commit: &CommitInfo, representable: bool) -> (line: Option<CommitLine>)
    ensures
        match line {
            Some(l) => representable && l@ == commit_line(*commit),
            None => !representable,
        },
{
    if !representable {
        return None;
    }
    let author = match &commit.author {
        Some(name) => name.clone(),
        None => "Unknown".to_owned(),
    };
    let message = match &commit.summary {
        Some(summary) => summary.clone(),
        None => "No commit message".to_owned(),
    };
    Some(CommitLine { seconds: commit.seconds, author, message })
}

/// Reports on the latest commits of a repository.
pub struct GitAnalyzer;

impl GitAnalyzer {
    /// The report over `commits`, newest first as they were read: one line
    /// for each of the first ten, in order. The report stops short at the
    /// first commit whose time is not a valid timestamp, and says so.
    pub fn analyze_recent_commits(commits: &Vec<CommitInfo>) -> (report: CommitReport)
        ensures
            report.lines@.len() <= commits_considered(commits@),
            forall|i: int|
                0 <= i < report.lines@.len() ==> representable_seconds(
                    (#[trigger] commits@[i]).seconds as int,
                ) && report.lines@[i]@ == commit_line(commits@[i]),
            report.invalid_timestamp <==> report.lines@.len() < commits_considered(commits@),
            report.invalid_timestamp ==> !representable_seconds(
                commits@[report.lines@.len() as int].seconds as int,
            ),
    {
        let mut lines: Vec<CommitLine> = Vec::new();
        let mut i: usize = 0;
        while i < commits.len() && i < RECENT_COMMITS
            invariant
                i <= commits_considered(commits@),
                lines@.len() == i,
                forall|k: int|
                    0 <= k < i ==> representable_seconds((#[trigger] commits@[k]).seconds as int)
                        && lines@[k]@ == commit_line(commits@[k]),
            decreases commits.len() - i,
        {
            let commit = &commits[i];
            match line_for(commit, is_representable(commit.seconds)) {
                Some(line) => lines.push(line),
                None => {
                    return CommitReport { lines, invalid_timestamp: true };
                },
            }
            i += 1;
        }
        CommitReport { lines, invalid_timestamp: false }
    }
}

} // verus!
