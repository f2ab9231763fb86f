//! Review threads and comments: immutable snapshots of one fetch.
use vstd::prelude::*;

verus! {

/// An instant, as whole seconds since the Unix epoch and the nanoseconds past that second.
#[derive(Clone, Copy, Debug, PartialEq, Eq, Structural)]
pub struct Timestamp {
    pub secs: i64,
    pub nanos: u32,
}

/// Strict chronological order of two instants.
pub open spec fn ts_before(a: Timestamp, b: Timestamp) -> bool {
    a.secs < b.secs || (a.secs == b.secs && a.nanos < b.nanos)
}

/// The instant that an RFC 3339 text names, as (seconds since the epoch, subsecond
/// nanoseconds), or `None` where the text is no valid RFC 3339 date-time.
pub uninterp spec fn rfc3339_instant(text: Seq<char>) -> Option<(i64, u32)>;

/// Relies on `chrono::DateTime::parse_from_rfc3339`, read back through `timestamp` and
/// `timestamp_subsec_nanos`: whether the text parses, and to which instant, depends on
/// the text alone.
#[verifier::external_body]
fn parse_rfc3339(text: &str) -> (r: Option<(i64, u32)>)
    ensures
        r == rfc3339_instant(text@),
{
    chrono::DateTime::parse_from_rfc3339(text).ok().map(|d| (d.timestamp(), d.timestamp_subsec_nanos()))
}

impl Timestamp {
    /// Reads an RFC 3339 date-time such as `2024-05-01T12:00:00Z`.
    pub fn parse(text: &str) -> (r: Option<Timestamp>)
        ensures
            r == (match rfc3339_instant(text@) {
                Some((s, n)) => Some(Timestamp { secs: s, nanos: n }),
                None => None,
            }),
    {
        match parse_rfc3339(text) {
            Some((s, n)) => Some(Timestamp { secs: s, nanos: n }),
            None => None,
        }
    }

    /// Whether `self` lies strictly before `other`.
    pub fn before(&self, other: &Timestamp) -> (r: bool)
        ensures
            r == ts_before(*self, *other),
    {
        self.secs < other.secs || (self.secs == other.secs && self.nanos < other.nanos)
    }
}

/// Why a fetched thread or comment was rejected.
#[derive(Clone, Copy, Debug, PartialEq, Eq, Structural)]
pub enum FetchError {
    /// A thread arrived without any comment.
    NoComments,
    /// A comment's creation time is no RFC 3339 date-time.
    BadTimestamp,
}

/// One comment of a review thread.
#[derive(Clone, Debug)]
pub struct Comment {
    pub id: String,
    /// The numeric identifier that a reply targets.
    pub numeric_id: u64,
    pub author: String,
    pub body: String,
    pub diff_excerpt: Option<String>,
    pub created_at: Timestamp,
}

impl Comment {
    /// Builds a comment from fetched fields, reading its creation time as RFC 3339.
    pub fn new(
        id: String,
        numeric_id: u64,
        author: String,
        body: String,
        diff_excerpt: Option<String>,
        created_at: &str,
    ) -> (r: Result<Comment, FetchError>)
        ensures
            r is Err <==> rfc3339_instant(created_at@) is None,
            r is Err ==> r == Err::<Comment, FetchError>(FetchError::BadTimestamp),
            r matches Ok(c) ==> {
                &&& c.id == id
                &&& c.numeric_id == numeric_id
                &&& c.author == author
                &&& c.body == body
                &&& c.diff_excerpt == diff_excerpt
                &&& Some((c.created_at.secs, c.created_at.nanos)) == rfc3339_instant(created_at@)
            },
    {
        match Timestamp::parse(created_at) {
            Some(t) => Ok(Comment { id, numeric_id, author, body, diff_excerpt, created_at: t }),
            None => Err(FetchError::BadTimestamp),
        }
    }
}

/// A review conversation anchored to a file: its comments in arrival order.
#[derive(Clone, Debug)]
pub struct Thread {
    /// Opaque identifier, stable across fetches.
    pub id: String,
    pub path: String,
    pub resolved: bool,
    pub comments: Vec<Comment>,
}

impl Thread {
    /// A well-formed thread holds at least one comment.
    pub open spec fn wf(self) -> bool {
        self.comments@.len() > 0
    }

    /// A thread was created when its first comment was.
    pub open spec fn created(self) -> Timestamp {
        self.comments@[0].created_at
    }

    /// Builds a thread, rejecting one without comments.
    pub fn new(id: String, path: String, resolved: bool, comments: Vec<Comment>) -> (r: Result<
        Thread,
        FetchError,
    >)
        ensures
            r is Err <==> comments@.len() == 0,
            r is Err ==> r == Err::<Thread, FetchError>(FetchError::NoComments),
            r matches Ok(t) ==> t.wf() && t.id == id && t.path == path && t.resolved == resolved
                && t.comments == comments,
    {
        if comments.len() == 0 {
            Err(FetchError::NoComments)
        } else {
            Ok(Thread { id, path, resolved, comments })
        }
    }

    pub fn created_at(&self) -> (r: Timestamp)
        requires
            self.wf(),
        ensures
            r == self.created(),
    {
        self.comments[0].created_at
    }

    /// Whether `self` sorts strictly before `other` by (resolved, created_at):
    /// unresolved threads first, older first.
    pub fn sorts_before(&self, other: &Thread) -> (r: bool)
        requires
            self.wf(),
            other.wf(),
        ensures
            r == key_before(*self, *other),
    {
        if self.resolved != other.resolved {
            !self.resolved
        } else {
            self.created_at().before(&other.created_at())
        }
    }
}

/// The sort key of threads, (resolved, created_at) ascending, as a strict order.
pub open spec fn key_before(a: Thread, b: Thread) -> bool {
    (!a.resolved && b.resolved) || (a.resolved == b.resolved && ts_before(a.created(), b.created()))
}

/// Two threads with equal sort keys.
pub open spec fn key_same(a: Thread, b: Thread) -> bool {
    a.resolved == b.resolved && a.created() == b.created()
}

/// The order in which the views list the threads of one fetch `ts`, by position in the
/// fetch: by sort key, and by fetch order between equal keys.
pub open spec fn precedes(ts: Seq<Thread>, i: int, j: int) -> bool {
    key_before(ts[i], ts[j]) || (key_same(ts[i], ts[j]) && i < j)
}

/// Every thread of a fetch is well formed.
pub open spec fn all_wf(ts: Seq<Thread>) -> bool {
    forall|i: int| 0 <= i < ts.len() ==> #[trigger] ts[i].wf()
}

} // verus!
