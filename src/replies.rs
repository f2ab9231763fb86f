//! Replies waiting to be published, in the order in which they were written.
use vstd::prelude::*;

verus! {

/// A reply to the comment with numeric identifier `target`.
#[derive(Clone, Debug)]
pub struct QueuedReply {
    pub target: u64,
    pub body: String,
}

/// What the session loop does after a publish call returned.
#[derive(Clone, Copy, Debug, PartialEq, Eq, Structural)]
pub enum Flow {
    /// Publish the reply now at the front.
    Continue,
    /// A call failed: stop, keeping that reply and those behind it.
    Stop,
    /// The queue is empty: fetch the threads again.
    Done,
}

/// The queue after a publish call of its front reply succeeded (`ok`) or failed: a
/// reply leaves only on success.
pub open spec fn after_publish(q: Seq<QueuedReply>, ok: bool) -> Seq<QueuedReply> {
    if ok && q.len() > 0 {
        q.drop_first()
    } else {
        q
    }
}

/// What the loop does next after that call.
pub open spec fn flow_after(q: Seq<QueuedReply>, ok: bool) -> Flow {
    if !ok {
        Flow::Stop
    } else if after_publish(q, ok).len() == 0 {
        Flow::Done
    } else {
        Flow::Continue
    }
}

/// The queue after a publish run in which the calls returned `outcomes` in turn: each
/// call publishes the front reply, and the run ends when `flow_after` says so.
pub open spec fn publish_run(q: Seq<QueuedReply>, outcomes: Seq<bool>) -> Seq<QueuedReply>
    decreases outcomes.len(),
{
    if outcomes.len() == 0 || q.len() == 0 {
        q
    } else if flow_after(q, outcomes[0]) == Flow::Continue {
        publish_run(after_publish(q, outcomes[0]), outcomes.drop_first())
    } else {
        after_publish(q, outcomes[0])
    }
}

/// The replies written and not yet published, front first.
#[derive(Clone, Debug)]
pub struct ReplyQueue {
    items: Vec<QueuedReply>,
}

impl View for ReplyQueue {
    type V = Seq<QueuedReply>;

    closed spec fn view(&self) -> Seq<QueuedReply> {
        self.items@
    }
}

impl ReplyQueue {
    pub fn new() -> (r: ReplyQueue)
        ensures
            r@ == Seq::<QueuedReply>::empty(),
    {
        ReplyQueue { items: Vec::new() }
    }

    /// Adds a reply at the back.
    pub fn enqueue(&mut self, target: u64, body: String)
        ensures
            final(self)@ == old(self)@.push(QueuedReply { target, body }),
    {
        self.items.push(QueuedReply { target, body });
    }

    pub fn len(&self) -> (r: usize)
        ensures
            r == self@.len(),
    {
        self.items.len()
    }

    pub fn is_empty(&self) -> (r: bool)
        ensures
            r == (self@.len() == 0),
    {
        self.items.len() == 0
    }

    /// The reply to publish next.
    pub fn front(&self) -> (r: Option<&QueuedReply>)
        ensures
            r is Some <==> self@.len() > 0,
            r matches Some(f) ==> *f == self@[0],
    {
        if self.items.len() == 0 {
            None
        } else {
            Some(&self.items[0])
        }
    }

    /// Takes in the outcome of the publish call for the front reply: on success that
    /// reply leaves the queue; on failure the queue stays as it is.
    pub fn published(&mut self, ok: bool) -> (r: Flow)
        ensures
            final(self)@ == after_publish(old(self)@, ok),
            r == flow_after(old(self)@, ok),
    {
        if !ok {
            return Flow::Stop;
        }
        if self.items.len() > 0 {
            self.items.remove(0);
            assert(self.items@ =~= old(self)@.drop_first());
        }
        if self.items.len() == 0 {
            Flow::Done
        } else {
            Flow::Continue
        }
    }
}

/// Of `n` queued replies, where the first `k - 1` publish calls succeed and the `k`-th
/// fails, the run leaves replies `k` to `n` in the queue, in their order.
pub proof fn lemma_publish_stops_at_failure(q: Seq<QueuedReply>, outcomes: Seq<bool>, k: int)
    requires
        1 <= k <= q.len(),
        k <= outcomes.len(),
        forall|j: int| 0 <= j < k - 1 ==> outcomes[j],
        !outcomes[k - 1],
    ensures
        publish_run(q, outcomes) == q.subrange(k - 1, q.len() as int),
        publish_run(q, outcomes).len() == q.len() - k + 1,
    decreases k,
{
    if k == 1 {
        assert(q.subrange(0, q.len() as int) =~= q);
    } else {
        let rest = outcomes.drop_first();
        assert(outcomes[0]);
        assert(q.drop_first().len() > 0);
        lemma_publish_stops_at_failure(q.drop_first(), rest, k - 1);
        assert(q.drop_first().subrange(k - 2, q.len() - 1) =~= q.subrange(k - 1, q.len() as int));
    }
}

} // verus!
