//! The bounded feeder queue: the hand-off between ingestion sources and
//! the producer task.
//!
//! The queue's capacity is fixed at construction.  A send into a full
//! queue does not lose the post and does not grow the queue: it reports
//! [`SendOutcome::WouldBlock`], and the sending task suspends until the
//! producer has received — that is the backpressure the pipeline relies
//! on.  A send after the receiving side is gone reports
//! [`SendOutcome::Closed`].

use crate::post::posts_view;
use crate::post::{Post, PostView};
use vstd::prelude::*;

verus! {

/// What one send attempt did.
#[derive(Clone, Copy, PartialEq, Eq, Structural, Debug)]
pub enum SendOutcome {
    /// The post is in the queue.
    Accepted,
    /// The queue is full; the caller must wait for a receive and retry.
    WouldBlock,
    /// The receiving side is gone; the post can never be delivered.
    Closed,
}

/// The mathematical value of a [`FeederQueue`].
#[verifier::ext_equal]
pub struct QueueView {
    pub capacity: nat,
    pub items: Seq<PostView>,
    pub closed: bool,
}

/// The bounded queue between ingestion sources and the producer: posts
/// wait here, oldest first, until the producer drains them.
pub struct FeederQueue {
    capacity: usize,
    items: Vec<Post>,
    closed: bool,
}

impl View for FeederQueue {
    type V = QueueView;

    closed spec fn view(&self) -> QueueView {
        QueueView {
            capacity: self.capacity as nat,
            items: posts_view(self.items@),
            closed: self.closed,
        }
    }
}

/// What a send attempt does to the queue.
pub open spec fn spec_send(q: QueueView, p: PostView) -> (QueueView, SendOutcome) {
    if q.closed {
        (q, SendOutcome::Closed)
    } else if q.items.len() >= q.capacity {
        (q, SendOutcome::WouldBlock)
    } else {
        (QueueView { items: q.items + seq![p], ..q }, SendOutcome::Accepted)
    }
}

/// What a receive does to the queue: the oldest post leaves, if any.
pub open spec fn spec_recv(q: QueueView) -> (QueueView, Option<PostView>) {
    if q.items.len() == 0 {
        (q, None)
    } else {
        (QueueView { items: q.items.drop_first(), ..q }, Some(q.items[0]))
    }
}

impl FeederQueue {
    /// The queue never holds more than its capacity.
    pub open spec fn wf(self) -> bool {
        self@.items.len() <= self@.capacity
    }

    /// A fresh, open, empty queue of the given capacity.
    pub fn create(capacity: usize) -> (r: FeederQueue)
        ensures
            r@.capacity == capacity,
            r@.items.len() == 0,
            !r@.closed,
            r.wf(),
    {
        let r = FeederQueue { capacity, items: Vec::new(), closed: false };
        proof {
            assert(posts_view(r.items@) =~= Seq::<PostView>::empty());
        }
        r
    }

    /// How many posts wait in the queue.
    pub fn len(&self) -> (r: usize)
        ensures
            r == self@.items.len(),
    {
        self.items.len()
    }

    /// Offer one post.  Exactly [`spec_send`]: accepted when the queue is
    /// open and has room, refused without effect otherwise.
    pub fn send(&mut self, post: Post) -> (r: SendOutcome)
        requires
            old(self).wf(),
        ensures
            final(self).wf(),
            (final(self)@, r) == spec_send(old(self)@, post@),
    {
        if self.closed {
            SendOutcome::Closed
        } else if self.items.len() >= self.capacity {
            SendOutcome::WouldBlock
        } else {
            let ghost old_items = self.items@;
            let ghost pv = post@;
            self.items.push(post);
            proof {
                assert(posts_view(self.items@) =~= posts_view(old_items) + seq![pv]);
                assert(self@ =~= spec_send(old(self)@, pv).0);
            }
            SendOutcome::Accepted
        }
    }

    /// Take the oldest post.  Exactly [`spec_recv`].
    pub fn recv(&mut self) -> (r: Option<Post>)
        requires
            old(self).wf(),
        ensures
            final(self).wf(),
            ({
                let (nv, out) = spec_recv(old(self)@);
                &&& final(self)@ == nv
                &&& match r {
                    Some(p) => out == Some(p@),
                    None => out is None,
                }
            }),
    {
        if self.items.len() == 0 {
            return None;
        }
        let ghost old_items = self.items@;
        let p = self.items.remove(0);
        proof {
            assert(posts_view(self.items@) =~= posts_view(old_items).drop_first());
            assert(posts_view(old_items)[0] == old_items[0]@);
            assert(self@ =~= spec_recv(old(self)@).0);
        }
        Some(p)
    }

    /// Tear down the receiving side: later sends report
    /// [`SendOutcome::Closed`].
    pub fn close(&mut self)
        requires
            old(self).wf(),
        ensures
            final(self).wf(),
            final(self)@ == (QueueView { closed: true, ..old(self)@ }),
    {
        self.closed = true;
        proof {
            assert(self@ =~= QueueView { closed: true, ..old(self)@ });
        }
    }
}

/// Backpressure: a send into a full, open queue changes nothing and tells
/// the caller to wait; after one receive, the same send is accepted, and
/// the waiting post joins the queue behind the rest.
pub proof fn lemma_send_backpressure(q: QueueView, p: PostView)
    requires
        !q.closed,
        q.capacity >= 1,
        q.items.len() == q.capacity,
    ensures
        spec_send(q, p) == (q, SendOutcome::WouldBlock),
        ({
            let (drained, received) = spec_recv(q);
            &&& received == Some(q.items[0])
            &&& spec_send(drained, p).1 == SendOutcome::Accepted
            &&& spec_send(drained, p).0.items == q.items.drop_first() + seq![p]
        }),
{
}

} // verus!
