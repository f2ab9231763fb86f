//! The review session's state: the fetched threads, the three views over them, a
//! cursor per view, the view shown and its scroll position.
use vstd::prelude::*;
use vstd::view::View as _;
use crate::thread::{FetchError, Thread, all_wf};
use crate::skip::{SkipStore, strings_view};
use crate::scroll::{Window, scrolled, scroll_by, visible_window, window_at};
use crate::text::{render_thread, rendered};
use crate::partition::{lemma_partition_unique, partition, partitioned, unresolved_in, unresolved_of};

verus! {

/// The three lenses over the fetched threads.
#[derive(Clone, Copy, Debug, PartialEq, Eq, Structural)]
pub enum View {
    /// Active threads that are not resolved.
    Unresolved,
    /// Threads that are not skipped.
    Active,
    /// Threads whose identifier is in the skip set.
    Skipped,
}

/// The view that follows `v`: Unresolved, Active, Skipped, and round again.
pub open spec fn next_view(v: View) -> View {
    match v {
        View::Unresolved => View::Active,
        View::Active => View::Skipped,
        View::Skipped => View::Unresolved,
    }
}

impl View {
    pub fn next(self) -> (r: View)
        ensures
            r == next_view(self),
    {
        match self {
            View::Unresolved => View::Active,
            View::Active => View::Skipped,
            View::Skipped => View::Unresolved,
        }
    }
}

/// What handling an input asks of the session loop.
#[derive(Clone, Copy, Debug, PartialEq, Eq, Structural)]
pub enum Tick {
    /// Leave the session.
    Exit,
    /// Draw the screen again.
    Render,
    /// Nothing changed.
    Noop,
    /// The skip set changed: write it out, then draw again.
    Persist,
    /// Compose a reply to the current thread.
    Compose,
    /// Publish the queued replies.
    Publish,
    /// Fetch the threads again.
    Refresh,
}

/// The informational line shown under the current thread.
#[derive(Clone, Copy, Debug, PartialEq, Eq, Structural)]
pub enum Status {
    Idle,
    /// The view shown is now this one.
    ViewChanged(View),
    /// The current thread was skipped.
    Skipped,
    /// The current thread was brought back from the skipped ones.
    Unskipped,
    /// Skip was asked for in the Skipped view.
    SkipRejected,
    /// Unskip was asked for outside the Skipped view.
    UnskipRejected,
    /// The threads were fetched again.
    Refreshed,
    /// Saving the skip set failed.
    PersistFailed,
    /// Fetching the threads failed.
    RefreshFailed,
    /// The editor could not be run.
    EditorFailed,
    /// Composing a reply was given up.
    ReplyCancelled,
    /// A reply joined the queue.
    ReplyQueued,
    /// Publishing stopped at a reply that failed.
    PublishFailed,
    /// Every queued reply was published.
    Published,
}

/// The cursor rule: `c` itself where it is in range, the last position where it is past
/// the end, and 0 in an empty view.
pub open spec fn clamp(c: int, len: int) -> int {
    if len <= 0 {
        0
    } else if c >= len {
        len - 1
    } else {
        c
    }
}

/// A cursor is 0 in an empty view, else a position of the view.
pub open spec fn cursor_ok(c: int, len: int) -> bool {
    if len == 0 {
        c == 0
    } else {
        0 <= c < len
    }
}

/// The identifiers of the threads that a view lists, in its order.
pub open spec fn ids_of(ts: Seq<Thread>, l: Seq<usize>) -> Seq<Seq<char>> {
    l.map_values(|x: usize| ts[x as int].id@)
}

/// The threads that a view lists, in its order.
pub open spec fn shown(ts: Seq<Thread>, l: Seq<usize>) -> Seq<Thread> {
    l.map_values(|x: usize| ts[x as int])
}

/// A cursor `c` put back after a view was rebuilt: at the first thread with the
/// identifier `id` that was selected before, where the view still holds one; else the
/// old cursor `old_c` clamped to the view.
pub open spec fn restored(ids: Seq<Seq<char>>, id: Option<Seq<char>>, old_c: int, c: int) -> bool {
    if id is Some && ids.contains(id->0) {
        &&& 0 <= c < ids.len()
        &&& ids[c] == id->0
        &&& forall|q: int| 0 <= q < c ==> ids[q] != id->0
    } else {
        c == clamp(old_c, ids.len() as int)
    }
}

/// The characters of an optional identifier.
pub open spec fn opt_text(o: Option<String>) -> Option<Seq<char>> {
    match o {
        Some(s) => Some(s@),
        None => None,
    }
}

/// The session state.
#[derive(Debug)]
pub struct App {
    view: View,
    scroll_offset: usize,
    threads: Vec<Thread>,
    active: Vec<usize>,
    unresolved: Vec<usize>,
    skipped: Vec<usize>,
    at_unresolved: usize,
    at_active: usize,
    at_skipped: usize,
    skips: SkipStore,
    status: Status,
}

impl App {
    /// The threads of the last fetch, in fetch order.
    pub closed spec fn fetched(self) -> Seq<Thread> {
        self.threads@
    }

    /// The positions in the fetch that view `v` lists, in view order.
    pub closed spec fn list(self, v: View) -> Seq<usize> {
        match v {
            View::Unresolved => self.unresolved@,
            View::Active => self.active@,
            View::Skipped => self.skipped@,
        }
    }

    /// The threads that view `v` lists, in view order.
    pub open spec fn threads_in(self, v: View) -> Seq<Thread> {
        shown(self.fetched(), self.list(v))
    }

    /// The cursor of view `v`.
    pub closed spec fn cursor(self, v: View) -> int {
        match v {
            View::Unresolved => self.at_unresolved as int,
            View::Active => self.at_active as int,
            View::Skipped => self.at_skipped as int,
        }
    }

    /// The view shown.
    pub closed spec fn shown_view(self) -> View {
        self.view
    }

    /// The scroll offset into the rendered thread.
    pub closed spec fn offset(self) -> int {
        self.scroll_offset as int
    }

    pub closed spec fn skip_set(self) -> Set<Seq<char>> {
        self.skips@
    }

    pub closed spec fn status_line(self) -> Status {
        self.status
    }

    /// The identifier of the thread that view `v` selects, if the view is not empty.
    pub open spec fn selected(self, v: View) -> Option<Seq<char>> {
        if self.list(v).len() > 0 {
            Some(self.fetched()[self.list(v)[self.cursor(v)] as int].id@)
        } else {
            None
        }
    }

    /// The skip set's own invariant.
    pub closed spec fn store_ok(self) -> bool {
        self.skips.wf()
    }

    /// The session's invariant: the views are derived from the fetch and the skip set,
    /// Unresolved being the unresolved threads of Active in Active's order, and every
    /// cursor is in range.
    pub open spec fn wf(self) -> bool {
        &&& self.fetched().len() <= usize::MAX
        &&& 0 <= self.offset() <= usize::MAX
        &&& all_wf(self.fetched())
        &&& self.store_ok()
        &&& partitioned(self.fetched(), self.skip_set(), self.list(View::Active), self.list(View::Skipped))
        &&& self.list(View::Unresolved) == unresolved_in(self.fetched(), self.list(View::Active))
        &&& cursor_ok(self.cursor(View::Unresolved), self.list(View::Unresolved).len() as int)
        &&& cursor_ok(self.cursor(View::Active), self.list(View::Active).len() as int)
        &&& cursor_ok(self.cursor(View::Skipped), self.list(View::Skipped).len() as int)
    }

    /// `a` and `b` hold the same fetch, skip set and views.
    pub open spec fn same_views(a: App, b: App) -> bool {
        &&& a.fetched() == b.fetched()
        &&& a.skip_set() == b.skip_set()
        &&& a.list(View::Unresolved) == b.list(View::Unresolved)
        &&& a.list(View::Active) == b.list(View::Active)
        &&& a.list(View::Skipped) == b.list(View::Skipped)
    }

    /// `next` differs from `self` at most in its status line.
    pub closed spec fn same_but_status(self, next: App) -> bool {
        next == App { status: next.status, ..self }
    }
}

/// Checks that every thread of a fetch is well formed.
fn check_fetch(threads: &Vec<Thread>) -> (r: bool)
    ensures
        r == all_wf(threads@),
        threads@.len() <= usize::MAX,
{
    let mut k: usize = 0;
    while k < threads.len()
        invariant
            k <= threads@.len(),
            forall|j: int| 0 <= j < k ==> #[trigger] threads@[j].wf(),
        decreases threads@.len() - k,
    {
        if threads[k].comments.len() == 0 {
            assert(!threads@[k as int].wf());
            return false;
        }
        k = k + 1;
    }
    true
}

/// The identifier of the thread at cursor `c` of view `l`.
fn selected_in(ts: &Vec<Thread>, l: &Vec<usize>, c: usize) -> (r: Option<String>)
    requires
        forall|a: int| 0 <= a < l@.len() ==> (#[trigger] l@[a] as int) < ts@.len(),
        cursor_ok(c as int, l@.len() as int),
    ensures
        r is Some <==> l@.len() > 0,
        r matches Some(s) ==> s@ == ts@[l@[c as int] as int].id@,
{
    if l.len() == 0 {
        None
    } else {
        Some(ts[l[c]].id.clone())
    }
}

/// The cursor rule, executable.
fn clamp_cursor(c: usize, len: usize) -> (r: usize)
    ensures
        r as int == clamp(c as int, len as int),
        cursor_ok(r as int, len as int),
{
    if len == 0 {
        0
    } else if c >= len {
        len - 1
    } else {
        c
    }
}

/// Puts a cursor back on the thread with identifier `id` after a view was rebuilt.
fn reselect(ts: &Vec<Thread>, l: &Vec<usize>, id: &Option<String>, old_c: usize) -> (c: usize)
    requires
        forall|a: int| 0 <= a < l@.len() ==> (#[trigger] l@[a] as int) < ts@.len(),
    ensures
        restored(ids_of(ts@, l@), opt_text(*id), old_c as int, c as int),
        cursor_ok(c as int, l@.len() as int),
{
    let ghost ids = ids_of(ts@, l@);
    match id {
        None => clamp_cursor(old_c, l.len()),
        Some(x) => {
            let mut p: usize = 0;
            while p < l.len()
                invariant
                    p <= l@.len(),
                    ids == ids_of(ts@, l@),
                    opt_text(*id) == Some(x@),
                    forall|a: int| 0 <= a < l@.len() ==> (#[trigger] l@[a] as int) < ts@.len(),
                    forall|q: int| 0 <= q < p ==> ids[q] != x@,
                decreases l@.len() - p,
            {
                if ts[l[p]].id == *x {
                    assert(ids[p as int] == x@);
                    assert(ids.contains(x@));
                    assert(forall|q: int| 0 <= q < p ==> ids[q] != x@);
                    assert(opt_text(*id) == Some(x@));
                    return p;
                }
                p = p + 1;
            }
            assert(!ids.contains(x@)) by {
                if ids.contains(x@) {
                    let q = choose|q: int| 0 <= q < ids.len() && ids[q] == x@;
                }
            }
            assert(opt_text(*id) == Some(x@));
            clamp_cursor(old_c, l.len())
        },
    }
}

/// After a view was rebuilt, the cursor of view `v`: clamped where `v` is the view that
/// was acted on, else put back on the thread that it selected before.
pub open spec fn cursor_follows(before: App, after: App, v: View, acted: bool) -> bool {
    if acted {
        after.cursor(v) == clamp(before.cursor(v), after.list(v).len() as int)
    } else {
        restored(ids_of(after.fetched(), after.list(v)), before.selected(v), before.cursor(v), after.cursor(v))
    }
}

/// What `skip` does: in the Skipped view it only reports that skip is refused; on an
/// empty view nothing; else the current thread's identifier joins the skip set and
/// the views are derived anew.
pub open spec fn skip_done(before: App, after: App, r: Tick) -> bool {
    let v = before.shown_view();
    if v == View::Skipped {
        &&& before.same_but_status(after)
        &&& after.status_line() == Status::SkipRejected
        &&& r == Tick::Render
    } else if before.list(v).len() == 0 {
        &&& after == before
        &&& r == Tick::Noop
    } else {
        &&& after.fetched() == before.fetched()
        &&& after.skip_set() == before.skip_set().insert(before.selected(v)->0)
        &&& after.shown_view() == v
        &&& after.offset() == 0
        &&& after.status_line() == Status::Skipped
        &&& cursor_follows(before, after, View::Unresolved, v == View::Unresolved)
        &&& cursor_follows(before, after, View::Active, v == View::Active)
        &&& cursor_follows(before, after, View::Skipped, false)
        &&& r == Tick::Persist
    }
}

/// What `unskip` does: outside the Skipped view it only reports that unskip is
/// refused; on an empty view nothing; else the current thread's identifier leaves the
/// skip set and the views are derived anew.
pub open spec fn unskip_done(before: App, after: App, r: Tick) -> bool {
    let v = before.shown_view();
    if v != View::Skipped {
        &&& before.same_but_status(after)
        &&& after.status_line() == Status::UnskipRejected
        &&& r == Tick::Render
    } else if before.list(v).len() == 0 {
        &&& after == before
        &&& r == Tick::Noop
    } else {
        &&& after.fetched() == before.fetched()
        &&& after.skip_set() == before.skip_set().remove(before.selected(v)->0)
        &&& after.shown_view() == v
        &&& after.offset() == 0
        &&& after.status_line() == Status::Unskipped
        &&& cursor_follows(before, after, View::Unresolved, false)
        &&& cursor_follows(before, after, View::Active, false)
        &&& cursor_follows(before, after, View::Skipped, true)
        &&& r == Tick::Persist
    }
}

impl App {
    /// Starts a session on a fetch, in the Unresolved view with every cursor at the
    /// start. A thread without comments rejects the fetch.
    pub fn new(threads: Vec<Thread>, skips: SkipStore) -> (r: Result<App, FetchError>)
        requires
            skips.wf(),
        ensures
            r is Err <==> !all_wf(threads@),
            r is Err ==> r == Err::<App, FetchError>(FetchError::NoComments),
            r matches Ok(app) ==> {
                &&& app.wf()
                &&& app.fetched() == threads@
                &&& app.skip_set() == skips@
                &&& app.shown_view() == View::Unresolved
                &&& app.offset() == 0
                &&& app.cursor(View::Unresolved) == 0
                &&& app.cursor(View::Active) == 0
                &&& app.cursor(View::Skipped) == 0
                &&& app.status_line() == Status::Idle
            },
    {
        if !check_fetch(&threads) {
            return Err(FetchError::NoComments);
        }
        let (active, skipped) = partition(&threads, &skips);
        let unresolved = unresolved_of(&threads, &active);
        Ok(App {
            view: View::Unresolved,
            scroll_offset: 0,
            threads,
            active,
            unresolved,
            skipped,
            at_unresolved: 0,
            at_active: 0,
            at_skipped: 0,
            skips,
            status: Status::Idle,
        })
    }

    /// The view shown.
    pub fn view(&self) -> (r: View)
        ensures
            r == self.shown_view(),
    {
        self.view
    }

    /// The scroll offset into the rendered thread.
    pub fn scroll_offset(&self) -> (r: usize)
        ensures
            r == self.offset(),
    {
        self.scroll_offset
    }

    pub fn status(&self) -> (r: Status)
        ensures
            r == self.status_line(),
    {
        self.status
    }

    /// Shows the outcome of work done outside the session state.
    pub fn set_status(&mut self, s: Status)
        ensures
            old(self).same_but_status(*final(self)),
            final(self).status_line() == s,
    {
        self.status = s;
    }

    pub fn skip_store(&self) -> (r: &SkipStore)
        ensures
            r@ == self.skip_set(),
            self.wf() ==> r.wf(),
    {
        &self.skips
    }

    /// The number of threads that view `v` lists.
    pub fn len_of(&self, v: View) -> (r: usize)
        ensures
            r == self.list(v).len(),
    {
        match v {
            View::Unresolved => self.unresolved.len(),
            View::Active => self.active.len(),
            View::Skipped => self.skipped.len(),
        }
    }

    /// The cursor of view `v`.
    pub fn cursor_of(&self, v: View) -> (r: usize)
        ensures
            r == self.cursor(v),
    {
        match v {
            View::Unresolved => self.at_unresolved,
            View::Active => self.at_active,
            View::Skipped => self.at_skipped,
        }
    }

    /// The thread that the shown view selects, if it lists any.
    pub fn current(&self) -> (r: Option<&Thread>)
        requires
            self.wf(),
        ensures
            r is Some <==> self.list(self.shown_view()).len() > 0,
            r matches Some(t) ==> *t == self.threads_in(self.shown_view())[self.cursor(self.shown_view())],
            r matches Some(t) ==> t.wf(),
    {
        let (l, c) = match self.view {
            View::Unresolved => (&self.unresolved, self.at_unresolved),
            View::Active => (&self.active, self.at_active),
            View::Skipped => (&self.skipped, self.at_skipped),
        };
        if l.len() == 0 {
            None
        } else {
            proof {
                if self.view == View::Unresolved {
                    lemma_unresolved_in_fetch(self.threads@, self.active@);
                    assert(self.unresolved@.contains(self.unresolved@[c as int]));
                }
                assert(self.threads@[l@[c as int] as int].wf());
            }
            Some(&self.threads[l[c]])
        }
    }
}

/// Every position that Unresolved lists is one that Active lists.
pub proof fn lemma_unresolved_in_fetch(ts: Seq<Thread>, active: Seq<usize>)
    ensures
        forall|x: usize| #[trigger] unresolved_in(ts, active).contains(x) ==> active.contains(x) && !ts[x as int].resolved,
        forall|x: usize| active.contains(x) && !ts[x as int].resolved ==> #[trigger] unresolved_in(ts, active).contains(x),
{
    active.filter_lemma(|x: usize| !ts[x as int].resolved);
    assert forall|x: usize| #[trigger] unresolved_in(ts, active).contains(x) implies active.contains(x) && !ts[x as int].resolved by {
        active.lemma_filter_contains_rev(|x: usize| !ts[x as int].resolved, x);
        let a = choose|a: int| 0 <= a < unresolved_in(ts, active).len() && unresolved_in(ts, active)[a] == x;
    }
    assert forall|x: usize| active.contains(x) && !ts[x as int].resolved implies #[trigger] unresolved_in(ts, active).contains(x) by {
        let a = choose|a: int| 0 <= a < active.len() && active[a] == x;
        assert(unresolved_in(ts, active).contains(active[a]));
    }
}

impl App {
    /// Derives the views anew from the fetch and the skip set. The cursor of the view
    /// `acted` on is clamped; every other one is put back on the thread that it
    /// selected, whose identifier the caller passes.
    fn rebuild(
        &mut self,
        keep_unresolved: Option<String>,
        keep_active: Option<String>,
        keep_skipped: Option<String>,
        acted: Option<View>,
    )
        requires
            old(self).threads@.len() <= usize::MAX,
            all_wf(old(self).threads@),
            old(self).skips.wf(),
        ensures
            final(self).wf(),
            final(self).fetched() == old(self).fetched(),
            final(self).skip_set() == old(self).skip_set(),
            final(self).shown_view() == old(self).shown_view(),
            final(self).offset() == old(self).offset(),
            final(self).status_line() == old(self).status_line(),
            acted == Some(View::Unresolved) ==> final(self).cursor(View::Unresolved) == clamp(
                old(self).cursor(View::Unresolved),
                final(self).list(View::Unresolved).len() as int,
            ),
            acted != Some(View::Unresolved) ==> restored(
                ids_of(final(self).fetched(), final(self).list(View::Unresolved)),
                opt_text(keep_unresolved),
                old(self).cursor(View::Unresolved),
                final(self).cursor(View::Unresolved),
            ),
            acted == Some(View::Active) ==> final(self).cursor(View::Active) == clamp(
                old(self).cursor(View::Active),
                final(self).list(View::Active).len() as int,
            ),
            acted != Some(View::Active) ==> restored(
                ids_of(final(self).fetched(), final(self).list(View::Active)),
                opt_text(keep_active),
                old(self).cursor(View::Active),
                final(self).cursor(View::Active),
            ),
            acted == Some(View::Skipped) ==> final(self).cursor(View::Skipped) == clamp(
                old(self).cursor(View::Skipped),
                final(self).list(View::Skipped).len() as int,
            ),
            acted != Some(View::Skipped) ==> restored(
                ids_of(final(self).fetched(), final(self).list(View::Skipped)),
                opt_text(keep_skipped),
                old(self).cursor(View::Skipped),
                final(self).cursor(View::Skipped),
            ),
    {
        let (active, skipped) = partition(&self.threads, &self.skips);
        let unresolved = unresolved_of(&self.threads, &active);
        proof {
            lemma_unresolved_in_fetch(self.threads@, active@);
            assert forall|a: int| 0 <= a < unresolved@.len() implies (#[trigger] unresolved@[a] as int) < self.threads@.len() by {
                assert(unresolved@.contains(unresolved@[a]));
                let b = choose|b: int| 0 <= b < active@.len() && active@[b] == unresolved@[a];
            }
        }
        self.at_unresolved = if acted == Some(View::Unresolved) {
            clamp_cursor(self.at_unresolved, unresolved.len())
        } else {
            reselect(&self.threads, &unresolved, &keep_unresolved, self.at_unresolved)
        };
        self.at_active = if acted == Some(View::Active) {
            clamp_cursor(self.at_active, active.len())
        } else {
            reselect(&self.threads, &active, &keep_active, self.at_active)
        };
        self.at_skipped = if acted == Some(View::Skipped) {
            clamp_cursor(self.at_skipped, skipped.len())
        } else {
            reselect(&self.threads, &skipped, &keep_skipped, self.at_skipped)
        };
        self.active = active;
        self.unresolved = unresolved;
        self.skipped = skipped;
    }

    /// The identifiers that the three views select, in the order Unresolved, Active,
    /// Skipped.
    fn selections(&self) -> (r: (Option<String>, Option<String>, Option<String>))
        requires
            self.wf(),
        ensures
            opt_text(r.0) == self.selected(View::Unresolved),
            opt_text(r.1) == self.selected(View::Active),
            opt_text(r.2) == self.selected(View::Skipped),
    {
        proof {
            lemma_unresolved_in_fetch(self.threads@, self.active@);
            assert forall|a: int| 0 <= a < self.unresolved@.len() implies (#[trigger] self.unresolved@[a] as int) < self.threads@.len() by {
                assert(self.unresolved@.contains(self.unresolved@[a]));
            }
        }
        (
            selected_in(&self.threads, &self.unresolved, self.at_unresolved),
            selected_in(&self.threads, &self.active, self.at_active),
            selected_in(&self.threads, &self.skipped, self.at_skipped),
        )
    }

    /// Moves to the next view: Unresolved, Active, Skipped, and round again. Reading
    /// starts over at the top.
    pub fn advance_view(&mut self) -> (r: Tick)
        requires
            old(self).wf(),
        ensures
            final(self).wf(),
            advance_done(*old(self), *final(self), r),
    {
        self.view = self.view.next();
        self.scroll_offset = 0;
        self.status = Status::ViewChanged(self.view);
        Tick::Render
    }

    /// Selects the next thread of the shown view, from the last back to the first.
    pub fn next_thread(&mut self) -> (r: Tick)
        requires
            old(self).wf(),
        ensures
            final(self).wf(),
            next_done(*old(self), *final(self), r),
    {
        let n = self.len_of(self.view);
        if n == 0 {
            return Tick::Noop;
        }
        let c = self.cursor_of(self.view);
        let next = if c + 1 == n { 0 } else { c + 1 };
        proof {
            if c + 1 == n {
                vstd::arithmetic::div_mod::lemma_mod_self_0(n as int);
            } else {
                vstd::arithmetic::div_mod::lemma_small_mod((c + 1) as nat, n as nat);
            }
        }
        match self.view {
            View::Unresolved => self.at_unresolved = next,
            View::Active => self.at_active = next,
            View::Skipped => self.at_skipped = next,
        }
        self.scroll_offset = 0;
        Tick::Render
    }

    /// Selects the previous thread of the shown view, from the first back to the last.
    pub fn prev_thread(&mut self) -> (r: Tick)
        requires
            old(self).wf(),
        ensures
            final(self).wf(),
            prev_done(*old(self), *final(self), r),
    {
        let n = self.len_of(self.view);
        if n == 0 {
            return Tick::Noop;
        }
        let c = self.cursor_of(self.view);
        let prev = if c == 0 { n - 1 } else { c - 1 };
        match self.view {
            View::Unresolved => self.at_unresolved = prev,
            View::Active => self.at_active = prev,
            View::Skipped => self.at_skipped = prev,
        }
        self.scroll_offset = 0;
        Tick::Render
    }

    /// Skips the current thread: its identifier joins the skip set, and every thread
    /// with that identifier moves from Active (and Unresolved) to Skipped. Refused in
    /// the Skipped view. The caller writes the skip set out on `Tick::Persist`.
    pub fn skip(&mut self) -> (r: Tick)
        requires
            old(self).wf(),
        ensures
            final(self).wf(),
            skip_done(*old(self), *final(self), r),
    {
        let v = self.view;
        if v == View::Skipped {
            self.status = Status::SkipRejected;
            return Tick::Render;
        }
        let (ku, ka, ks) = self.selections();
        let id = match v {
            View::Unresolved => ku.clone(),
            _ => ka.clone(),
        };
        match id {
            None => Tick::Noop,
            Some(id) => {
                self.skips.add(id);
                self.rebuild(ku, ka, ks, Some(v));
                self.scroll_offset = 0;
                self.status = Status::Skipped;
                Tick::Persist
            },
        }
    }
}

impl App {
    /// Brings the current thread back from the Skipped view: its identifier leaves the
    /// skip set, and every thread with that identifier returns to Active, and to
    /// Unresolved where it is unresolved. Refused outside the Skipped view. The caller
    /// writes the skip set out on `Tick::Persist`.
    pub fn unskip(&mut self) -> (r: Tick)
        requires
            old(self).wf(),
        ensures
            final(self).wf(),
            unskip_done(*old(self), *final(self), r),
    {
        let v = self.view;
        if v != View::Skipped {
            self.status = Status::UnskipRejected;
            return Tick::Render;
        }
        let (ku, ka, ks) = self.selections();
        let id = ks.clone();
        match id {
            None => Tick::Noop,
            Some(id) => {
                self.skips.remove(&id);
                self.rebuild(ku, ka, ks, Some(v));
                self.scroll_offset = 0;
                self.status = Status::Unskipped;
                Tick::Persist
            },
        }
    }

    /// Skips the current thread, or in the Skipped view brings it back.
    pub fn skip_current(&mut self) -> (r: Tick)
        requires
            old(self).wf(),
        ensures
            final(self).wf(),
            old(self).shown_view() == View::Skipped ==> unskip_done(*old(self), *final(self), r),
            old(self).shown_view() != View::Skipped ==> skip_done(*old(self), *final(self), r),
    {
        if self.view == View::Skipped {
            self.unskip()
        } else {
            self.skip()
        }
    }

    /// Replaces the fetch wholesale and derives the views against the current skip set.
    /// Each cursor is put back on the thread with the identifier that it selected
    /// before, or else clamped. A fetch with a thread without comments is rejected and
    /// changes nothing.
    pub fn refresh(&mut self, threads: Vec<Thread>) -> (r: Result<(), FetchError>)
        requires
            old(self).wf(),
        ensures
            final(self).wf(),
            r is Err <==> !all_wf(threads@),
            r is Err ==> r == Err::<(), FetchError>(FetchError::NoComments) && *final(self) == *old(self),
            r is Ok ==> {
                &&& final(self).fetched() == threads@
                &&& final(self).skip_set() == old(self).skip_set()
                &&& final(self).shown_view() == old(self).shown_view()
                &&& final(self).offset() == old(self).offset()
                &&& final(self).status_line() == Status::Refreshed
                &&& cursor_follows(*old(self), *final(self), View::Unresolved, false)
                &&& cursor_follows(*old(self), *final(self), View::Active, false)
                &&& cursor_follows(*old(self), *final(self), View::Skipped, false)
            },
    {
        if !check_fetch(&threads) {
            return Err(FetchError::NoComments);
        }
        let (ku, ka, ks) = self.selections();
        self.threads = threads;
        self.rebuild(ku, ka, ks, None);
        self.status = Status::Refreshed;
        Ok(())
    }

    /// Scrolls the rendered thread by `step` lines, saturating at 0. The offset is
    /// clamped to the text when it is next drawn.
    pub fn scroll(&mut self, step: isize) -> (r: Tick)
        requires
            old(self).wf(),
        ensures
            final(self).wf(),
            scroll_done(*old(self), *final(self), step as int, r),
    {
        if step == 0 {
            return Tick::Noop;
        }
        self.scroll_offset = scroll_by(self.scroll_offset, step);
        Tick::Render
    }

    /// Fits the scroll offset to a rendered text of `lines` lines on a viewport of
    /// `height` rows, and gives the lines to draw; a viewport without rows draws
    /// nothing and leaves the offset as it is.
    pub fn window(&mut self, lines: usize, height: usize) -> (r: Option<Window>)
        requires
            old(self).wf(),
        ensures
            final(self).wf(),
            App::same_views(*old(self), *final(self)),
            final(self).shown_view() == old(self).shown_view(),
            final(self).cursor(View::Unresolved) == old(self).cursor(View::Unresolved),
            final(self).cursor(View::Active) == old(self).cursor(View::Active),
            final(self).cursor(View::Skipped) == old(self).cursor(View::Skipped),
            final(self).status_line() == old(self).status_line(),
            height == 0 <==> r is None,
            height == 0 ==> final(self).offset() == old(self).offset(),
            r matches Some(w) ==> {
                &&& (w.first as int, w.end as int) == window_at(old(self).offset(), lines as int, height as int)
                &&& final(self).offset() == w.first
            },
    {
        let r = visible_window(self.scroll_offset, lines, height);
        if let Some(w) = r {
            self.scroll_offset = w.first;
        }
        r
    }

    /// The thread at position `k` of view `v`.
    pub fn thread_at(&self, v: View, k: usize) -> (r: Option<&Thread>)
        requires
            self.wf(),
        ensures
            r is Some <==> k < self.list(v).len(),
            r matches Some(t) ==> *t == self.threads_in(v)[k as int],
    {
        let l = match v {
            View::Unresolved => &self.unresolved,
            View::Active => &self.active,
            View::Skipped => &self.skipped,
        };
        if k >= l.len() {
            None
        } else {
            proof {
                lemma_unresolved_in_fetch(self.threads@, self.active@);
                if v == View::Unresolved {
                    assert(self.unresolved@.contains(self.unresolved@[k as int]));
                }
            }
            Some(&self.threads[l[k]])
        }
    }

    /// The lines that show the current thread; none in an empty view.
    pub fn lines(&self) -> (r: Vec<String>)
        requires
            self.wf(),
        ensures
            self.list(self.shown_view()).len() == 0 ==> r@.len() == 0,
            self.list(self.shown_view()).len() > 0 ==> strings_view(r@) == rendered(
                self.threads_in(self.shown_view())[self.cursor(self.shown_view())],
            ),
    {
        match self.current() {
            Some(t) => render_thread(t),
            None => Vec::new(),
        }
    }

    /// The comment that a reply to the current thread answers: the thread's first.
    pub fn reply_target(&self) -> (r: Option<u64>)
        requires
            self.wf(),
        ensures
            r is Some <==> self.list(self.shown_view()).len() > 0,
            r matches Some(id) ==> id == self.threads_in(self.shown_view())[self.cursor(self.shown_view())].comments@[0].numeric_id,
    {
        match self.current() {
            Some(t) => Some(t.comments[0].numeric_id),
            None => None,
        }
    }
}

/// The skip set splits the fetched identifiers in two: none is both active and
/// skipped, and every fetched one is active or skipped. Every operation keeps `wf`,
/// so this holds after any sequence of skips and unskips.
pub proof fn lemma_views_split(app: App)
    requires
        app.wf(),
    ensures
        ids_of(app.fetched(), app.list(View::Active)).to_set().disjoint(
            ids_of(app.fetched(), app.list(View::Skipped)).to_set(),
        ),
        ids_of(app.fetched(), app.list(View::Active)).to_set().union(
            ids_of(app.fetched(), app.list(View::Skipped)).to_set(),
        ) == app.fetched().map_values(|t: Thread| t.id@).to_set(),
{
    let ts = app.fetched();
    let act = app.list(View::Active);
    let skp = app.list(View::Skipped);
    let ia = ids_of(ts, act);
    let is = ids_of(ts, skp);
    let all = ts.map_values(|t: Thread| t.id@);
    assert forall|x: Seq<char>| !(ia.to_set().contains(x) && is.to_set().contains(x)) by {
        if ia.contains(x) && is.contains(x) {
            let a = choose|a: int| 0 <= a < ia.len() && ia[a] == x;
            let b = choose|b: int| 0 <= b < is.len() && is[b] == x;
            assert(act.contains(act[a]));
            assert(skp.contains(skp[b]));
        }
    }
    assert forall|x: Seq<char>| ia.to_set().union(is.to_set()).contains(x) <==> all.to_set().contains(x) by {
        if ia.contains(x) {
            let a = choose|a: int| 0 <= a < ia.len() && ia[a] == x;
            assert(all[act[a] as int] == x);
        }
        if is.contains(x) {
            let b = choose|b: int| 0 <= b < is.len() && is[b] == x;
            assert(all[skp[b] as int] == x);
        }
        if all.contains(x) {
            let i = choose|i: int| 0 <= i < all.len() && all[i] == x;
            assert(ts[i].id@ == x);
            if app.skip_set().contains(x) {
                assert(skp.contains(i as usize));
                let b = choose|b: int| 0 <= b < skp.len() && skp[b] == i as usize;
                assert(is[b] == x);
            } else {
                assert(act.contains(i as usize));
                let a = choose|a: int| 0 <= a < act.len() && act[a] == i as usize;
                assert(ia[a] == x);
            }
        }
    }
    assert(ia.to_set().union(is.to_set()) =~= all.to_set());
}

/// Unresolved holds exactly the threads of Active that are not resolved, in Active's
/// order.
pub proof fn lemma_unresolved_within_active(app: App)
    requires
        app.wf(),
    ensures
        forall|t: Thread|
            app.threads_in(View::Unresolved).contains(t) <==> app.threads_in(View::Active).contains(t)
                && !t.resolved,
        app.list(View::Unresolved) == unresolved_in(app.fetched(), app.list(View::Active)),
{
    let ts = app.fetched();
    let act = app.list(View::Active);
    let u = app.list(View::Unresolved);
    lemma_unresolved_in_fetch(ts, act);
    assert forall|t: Thread|
        app.threads_in(View::Unresolved).contains(t) <==> app.threads_in(View::Active).contains(t)
            && !t.resolved by {
        if app.threads_in(View::Unresolved).contains(t) {
            let k = choose|k: int| 0 <= k < u.len() && ts[u[k] as int] == t;
            assert(u.contains(u[k]));
            let a = choose|a: int| 0 <= a < act.len() && act[a] == u[k];
            assert(app.threads_in(View::Active)[a] == t);
        }
        if app.threads_in(View::Active).contains(t) && !t.resolved {
            let a = choose|a: int| 0 <= a < act.len() && ts[act[a] as int] == t;
            assert(act.contains(act[a]));
            assert(u.contains(act[a]));
            let k = choose|k: int| 0 <= k < u.len() && u[k] == act[a];
            assert(app.threads_in(View::Unresolved)[k] == t);
        }
    }
}

/// Every cursor is 0 in an empty view and a position of its view otherwise; every
/// operation keeps `wf`, so this holds after any of them.
pub proof fn lemma_cursors_in_range(app: App, v: View)
    requires
        app.wf(),
    ensures
        cursor_ok(app.cursor(v), app.list(v).len() as int),
{
}

/// Skipping the current thread and then, with that thread selected in the Skipped
/// view, unskipping it gives back the views from before: the thread is in Active again
/// with its resolved flag as fetched, and in Unresolved exactly when it was before.
/// `moved` is the session between the two, where only view and cursors changed.
pub proof fn lemma_skip_then_unskip(
    start: App,
    skipped: App,
    r1: Tick,
    moved: App,
    back: App,
    r2: Tick,
)
    requires
        start.wf(),
        start.shown_view() != View::Skipped,
        start.list(start.shown_view()).len() > 0,
        skipped.wf(),
        skip_done(start, skipped, r1),
        moved.wf(),
        moved.fetched() == skipped.fetched(),
        moved.skip_set() == skipped.skip_set(),
        moved.shown_view() == View::Skipped,
        moved.selected(View::Skipped) == start.selected(start.shown_view()),
        back.wf(),
        unskip_done(moved, back, r2),
    ensures
        back.fetched() == start.fetched(),
        back.skip_set() == start.skip_set(),
        back.list(View::Active) == start.list(View::Active),
        back.list(View::Unresolved) == start.list(View::Unresolved),
        back.list(View::Skipped) == start.list(View::Skipped),
{
    let ts = start.fetched();
    let v = start.shown_view();
    let x = start.list(v)[start.cursor(v)];
    let id = start.selected(v)->0;
    lemma_unresolved_in_fetch(ts, start.list(View::Active));
    assert(start.list(v).contains(x));
    assert(start.list(View::Active).contains(x));
    assert(!start.skip_set().contains(id));
    assert(moved.list(View::Skipped).len() > 0) by {
        lemma_unresolved_in_fetch(ts, moved.list(View::Active));
    }
    assert(back.skip_set() =~= start.skip_set());
    lemma_partition_unique(
        ts,
        start.skip_set(),
        start.list(View::Active),
        start.list(View::Skipped),
        back.list(View::Active),
        back.list(View::Skipped),
    );
}

/// The cursor after `k` moves to the next thread in a view of `n` threads.
pub open spec fn after_nexts(c: int, n: int, k: nat) -> int
    decreases k,
{
    if k == 0 {
        c
    } else {
        (after_nexts(c, n, (k - 1) as nat) + 1) % n
    }
}

/// Moving to the next thread as many times as the view holds threads comes back to
/// the thread that was selected.
pub proof fn lemma_next_cycles(c: int, n: int)
    requires
        0 <= c < n,
    ensures
        after_nexts(c, n, n as nat) == c,
{
    assert forall|k: nat| k <= n implies #[trigger] after_nexts(c, n, k) == (c + k) % n by {
        lemma_after_nexts(c, n, k);
    }
    vstd::arithmetic::div_mod::lemma_mod_add_multiples_vanish(c, n);
    vstd::arithmetic::div_mod::lemma_small_mod(c as nat, n as nat);
}

proof fn lemma_after_nexts(c: int, n: int, k: nat)
    requires
        0 <= c < n,
    ensures
        after_nexts(c, n, k) == (c + k) % n,
    decreases k,
{
    if k > 0 {
        lemma_after_nexts(c, n, (k - 1) as nat);
        vstd::arithmetic::div_mod::lemma_add_mod_noop_right(1, c + k - 1, n);
        assert(after_nexts(c, n, k) == (1 + (c + k - 1) % n) % n);
        assert(1 + (c + k - 1) == c + k);
    } else {
        vstd::arithmetic::div_mod::lemma_small_mod(c as nat, n as nat);
    }
}

/// What `advance_view` does: the next view is shown from its top, with every list and
/// cursor kept.
pub open spec fn advance_done(before: App, after: App, r: Tick) -> bool {
    &&& App::same_views(before, after)
    &&& after.shown_view() == next_view(before.shown_view())
    &&& after.offset() == 0
    &&& after.cursor(View::Unresolved) == before.cursor(View::Unresolved)
    &&& after.cursor(View::Active) == before.cursor(View::Active)
    &&& after.cursor(View::Skipped) == before.cursor(View::Skipped)
    &&& after.status_line() == Status::ViewChanged(next_view(before.shown_view()))
    &&& r == Tick::Render
}

/// What `next_thread` does: in a view of `n > 0` threads the cursor moves to
/// `(c + 1) mod n` and reading starts over; an empty view stays as it is.
pub open spec fn next_done(before: App, after: App, r: Tick) -> bool {
    let v = before.shown_view();
    let n = before.list(v).len() as int;
    if n == 0 {
        after == before && r == Tick::Noop
    } else {
        &&& App::same_views(before, after)
        &&& after.cursor(v) == (before.cursor(v) + 1) % n
        &&& forall|w: View| w != v ==> after.cursor(w) == before.cursor(w)
        &&& after.shown_view() == v
        &&& after.offset() == 0
        &&& after.status_line() == before.status_line()
        &&& r == Tick::Render
    }
}

/// What `prev_thread` does: the cursor moves back by one, from the first thread to the
/// last, and reading starts over; an empty view stays as it is.
pub open spec fn prev_done(before: App, after: App, r: Tick) -> bool {
    let v = before.shown_view();
    let n = before.list(v).len() as int;
    if n == 0 {
        after == before && r == Tick::Noop
    } else {
        &&& App::same_views(before, after)
        &&& after.cursor(v) == if before.cursor(v) == 0 {
            n - 1
        } else {
            before.cursor(v) - 1
        }
        &&& forall|w: View| w != v ==> after.cursor(w) == before.cursor(w)
        &&& after.shown_view() == v
        &&& after.offset() == 0
        &&& after.status_line() == before.status_line()
        &&& r == Tick::Render
    }
}

/// What `scroll` does: a step of 0 changes nothing; any other moves the offset,
/// saturating at 0 and at the largest `usize`.
pub open spec fn scroll_done(before: App, after: App, step: int, r: Tick) -> bool {
    if step == 0 {
        after == before && r == Tick::Noop
    } else {
        &&& App::same_views(before, after)
        &&& after.offset() == scrolled(before.offset(), step)
        &&& after.shown_view() == before.shown_view()
        &&& after.cursor(View::Unresolved) == before.cursor(View::Unresolved)
        &&& after.cursor(View::Active) == before.cursor(View::Active)
        &&& after.cursor(View::Skipped) == before.cursor(View::Skipped)
        &&& after.status_line() == before.status_line()
        &&& r == Tick::Render
    }
}

} // verus!
