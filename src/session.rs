use vstd::prelude::*;

use crate::types::RemoteServer;

verus! {

/// Whether two strings hold the same characters.
pub fn same_text(s: &str, t: &str) -> (r: bool)
    ensures
        r == (s@ == t@),
{
    let n = s.unicode_len();
    if n != t.unicode_len() {
        return false;
    }
    let mut i: usize = 0;
    while i < n
        invariant
            0 <= i <= n,
            n == s@.len(),
            n == t@.len(),
            forall|j: int| 0 <= j < i ==> s@[j] == t@[j],
        decreases n - i,
    {
        if s.get_char(i) != t.get_char(i) {
            return false;
        }
        i += 1;
    }
    assert(s@ =~= t@);
    true
}

/// The server families that a remote registration can name.
#[derive(Clone, Copy, Debug, PartialEq, Eq, Structural)]
pub enum Dialect {
    MySql,
    Postgres,
}

/// The dialect that a registration's `db_type` names, if it is one.
pub open spec fn dialect_of(db_type: Seq<char>) -> Option<Dialect> {
    if db_type == "mysql"@ {
        Some(Dialect::MySql)
    } else if db_type == "postgresql"@ {
        Some(Dialect::Postgres)
    } else {
        None
    }
}

impl Dialect {
    pub fn from_db_type(db_type: &str) -> (r: Option<Dialect>)
        ensures
            r == dialect_of(db_type@),
    {
        if same_text(db_type, "mysql") {
            Some(Dialect::MySql)
        } else if same_text(db_type, "postgresql") {
            Some(Dialect::Postgres)
        } else {
            None
        }
    }
}

/// A failure met while synchronizing with one remote.
pub enum SyncError {
    /// The remote could not be connected to or migrated.
    Connect(String),
    /// A read or write on either replica failed.
    Query(String),
    /// The registration names a `db_type` that is not supported.
    UnrecognizedDialect(String),
}

/// The text that Rust's `Debug` format gives a string: the characters
/// between double quotes, with quotes, backslashes and control or
/// non-printable characters escaped.
pub uninterp spec fn debug_quoted(s: Seq<char>) -> Seq<char>;

/// Relies on std's `Debug` impl for `str`, through `format!("{:?}")`, to
/// quote and escape a string.
#[verifier::external_body]
fn quote_debug(s: &str) -> (r: String)
    ensures
        r@ == debug_quoted(s@),
{
    format!("{:?}", s)
}

pub open spec fn error_text(e: SyncError) -> Seq<char> {
    match e {
        SyncError::Connect(m) => m@,
        SyncError::Query(m) => m@,
        SyncError::UnrecognizedDialect(t) => "Unrecognized database type: "@ + debug_quoted(t@),
    }
}

impl SyncError {
    /// The error as a line of text for the user.
    pub fn message(&self) -> (r: String)
        ensures
            r@ == error_text(*self),
    {
        match self {
            SyncError::Connect(m) => m.clone(),
            SyncError::Query(m) => m.clone(),
            SyncError::UnrecognizedDialect(t) => {
                let mut r = String::from_str("Unrecognized database type: ");
                let quoted = quote_debug(t.as_str());
                r.append(quoted.as_str());
                r
            },
        }
    }
}

/// What the driver is to do next.
pub enum Step {
    /// The loop is over.
    Finish,
    /// The registration at the cursor named no known dialect; it was
    /// recorded as an error and passed over.
    Skipped,
    /// Connect to the registration at `index`, migrate it and synchronize
    /// with it, then report the outcome.
    Visit { index: usize, dialect: Dialect },
}

/// What came of a visit to one remote.
pub enum Outcome {
    /// Connecting or migrating failed.
    Unreachable(String),
    /// Both synchronizers ran; `changed` says whether they deleted or wrote
    /// anything.
    Synced(bool),
    /// A synchronizer failed after the changes that `changed` reports.
    Failed { changed: bool, message: String },
}

/// The state of one synchronization run over the registered remotes.
pub struct SyncSession {
    /// Registrations still in play; one that cannot be reached leaves.
    pub servers: Vec<RemoteServer>,
    /// The registration visited next.
    pub cursor: usize,
    /// Whether anything changed during the current pass.
    pub pass_changed: bool,
    pub errors: Vec<SyncError>,
}

impl SyncSession {
    /// The cursor stands on a registration or just past the last one.
    pub open spec fn wf(&self) -> bool {
        self.cursor <= self.servers.len()
    }

    pub fn new(servers: Vec<RemoteServer>) -> (r: SyncSession)
        ensures
            r.wf(),
            r.servers@ == servers@,
            r.cursor == 0,
            !r.pass_changed,
            r.errors@.len() == 0,
    {
        SyncSession { servers, cursor: 0, pass_changed: false, errors: Vec::new() }
    }

    /// Takes the next decision. With no registration left, the loop ends.
    /// Past the last registration a pass is over: without a change the loop
    /// ends, else a new pass starts at the first one. A registration with an
    /// unknown dialect is recorded as an error and passed over; one with a
    /// known dialect is to be visited.
    pub fn advance(&mut self) -> (r: Step)
        requires
            old(self).wf(),
        ensures
            final(self).wf(),
            final(self).servers@ == old(self).servers@,
            old(self).servers.len() == 0 ==> r is Finish && *final(self) == *old(self),
            old(self).servers.len() > 0 && old(self).cursor == old(self).servers.len()
                && !old(self).pass_changed ==> r is Finish && final(self).cursor == 0
                && final(self).errors@ == old(self).errors@ && !final(self).pass_changed,
            ({
                let wrap = old(self).cursor == old(self).servers.len();
                let c: int = if wrap {
                    0
                } else {
                    old(self).cursor as int
                };
                let changed = if wrap {
                    false
                } else {
                    old(self).pass_changed
                };
                let db_type = old(self).servers@[c].db_type;
                old(self).servers.len() > 0 && (!wrap || old(self).pass_changed) ==> final(self).pass_changed
                    == changed && match dialect_of(db_type@) {
                    None => r is Skipped && final(self).cursor == c + 1 && final(self).errors@
                        == old(self).errors@.push(SyncError::UnrecognizedDialect(db_type)),
                    Some(d) => r == (Step::Visit { index: c as usize, dialect: d })
                        && final(self).cursor == c && final(self).errors@ == old(self).errors@,
                }
            }),
    {
        let n = self.servers.len();
        if n == 0 {
            return Step::Finish;
        }
        if self.cursor >= n {
            self.cursor = 0;
            if !self.pass_changed {
                return Step::Finish;
            }
            self.pass_changed = false;
        }
        let c = self.cursor;
        match Dialect::from_db_type(self.servers[c].db_type.as_str()) {
            None => {
                let db_type = self.servers[c].db_type.clone();
                self.errors.push(SyncError::UnrecognizedDialect(db_type));
                self.cursor = c + 1;
                Step::Skipped
            },
            Some(d) => Step::Visit { index: c, dialect: d },
        }
    }

    /// Takes in the outcome of the visit to the registration at the cursor.
    /// One that cannot be reached is recorded as one error and leaves the
    /// run; the cursor then stands on the registration that followed it. A
    /// synchronizer's failure is recorded without removing the registration.
    pub fn record(&mut self, outcome: Outcome)
        requires
            old(self).cursor < old(self).servers.len(),
        ensures
            final(self).wf(),
            match outcome {
                Outcome::Unreachable(m) => final(self).servers@ == old(self).servers@.remove(
                    old(self).cursor as int,
                ) && final(self).cursor == old(self).cursor && final(self).pass_changed
                    == old(self).pass_changed && final(self).errors@ == old(self).errors@.push(
                    SyncError::Connect(m),
                ),
                Outcome::Synced(changed) => final(self).servers@ == old(self).servers@
                    && final(self).cursor == old(self).cursor + 1 && final(self).pass_changed == (
                old(self).pass_changed || changed) && final(self).errors@ == old(self).errors@,
                Outcome::Failed { changed, message } => final(self).servers@ == old(self).servers@
                    && final(self).cursor == old(self).cursor + 1 && final(self).pass_changed == (
                old(self).pass_changed || changed) && final(self).errors@ == old(self).errors@.push(
                    SyncError::Query(message),
                ),
            },
    {
        match outcome {
            Outcome::Unreachable(m) => {
                self.servers.remove(self.cursor);
                self.errors.push(SyncError::Connect(m));
            },
            Outcome::Synced(changed) => {
                self.pass_changed = self.pass_changed || changed;
                self.cursor = self.cursor + 1;
            },
            Outcome::Failed { changed, message } => {
                self.pass_changed = self.pass_changed || changed;
                self.errors.push(SyncError::Query(message));
                self.cursor = self.cursor + 1;
            },
        }
    }

    /// The run's result: success, or the message of each error in order.
    pub fn result(&self) -> (r: Result<(), Vec<String>>)
        ensures
            self.errors.len() == 0 ==> r is Ok,
            self.errors.len() > 0 ==> r is Err && r->Err_0@.len() == self.errors.len() && forall|i: int|
                0 <= i < self.errors.len() ==> (#[trigger] r->Err_0@[i])@ == error_text(self.errors@[i]),
    {
        if self.errors.len() == 0 {
            return Ok(());
        }
        let mut out: Vec<String> = Vec::new();
        let mut i: usize = 0;
        while i < self.errors.len()
            invariant
                0 <= i <= self.errors.len(),
                out.len() == i,
                forall|j: int| 0 <= j < i ==> (#[trigger] out@[j])@ == error_text(self.errors@[j]),
            decreases self.errors.len() - i,
        {
            out.push(self.errors[i].message());
            i += 1;
        }
        Err(out)
    }
}

} // verus!
