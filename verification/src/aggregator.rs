//! The batching aggregator: it buffers decoded posts and flushes them as
//! one batch to the pub/sub channel when a size threshold is reached or a
//! timer tick finds the buffer non-empty, whichever comes first.
//!
//! The event loop around it waits on the timer and the inbound posts with
//! a single select-style wait, so exactly one of [`BatchAggregator::on_tick`]
//! and [`BatchAggregator::on_post`] runs at a time and the buffer is never
//! mutated concurrently.  A flush moves the batch out whole and leaves a
//! fresh empty buffer behind.

use crate::post::posts_view;
use crate::post::{Post, PostView};
use vstd::prelude::*;

verus! {

/// The size threshold the pipeline uses unless configured otherwise.
pub const DEFAULT_BATCH_THRESHOLD: usize = 50;

/// The mathematical value of a [`BatchAggregator`].
#[verifier::ext_equal]
pub struct AggregatorView {
    pub batch: Seq<PostView>,
    pub threshold: nat,
}

/// The aggregator's state: the growing batch and the size threshold.
pub struct BatchAggregator {
    batch: Vec<Post>,
    threshold: usize,
}

impl View for BatchAggregator {
    type V = AggregatorView;

    closed spec fn view(&self) -> AggregatorView {
        AggregatorView { batch: posts_view(self.batch@), threshold: self.threshold as nat }
    }
}

/// What the arrival of one post does to the buffer: the post joins the
/// batch; when that fills it to the threshold, the whole batch flushes at
/// once and the buffer is empty again.  The size trigger fires here,
/// before any timer tick can see the full buffer — size wins ties.
pub open spec fn spec_on_post(v: AggregatorView, p: PostView) -> (
    AggregatorView,
    Option<Seq<PostView>>,
) {
    let grown = v.batch + seq![p];
    if grown.len() >= v.threshold {
        (AggregatorView { batch: Seq::empty(), ..v }, Some(grown))
    } else {
        (AggregatorView { batch: grown, ..v }, None)
    }
}

/// What a timer tick does to the buffer: a non-empty batch flushes whole;
/// an empty one is left alone, so no empty batch is ever published.
pub open spec fn spec_on_tick(v: AggregatorView) -> (AggregatorView, Option<Seq<PostView>>) {
    if v.batch.len() == 0 {
        (v, None)
    } else {
        (AggregatorView { batch: Seq::empty(), ..v }, Some(v.batch))
    }
}

impl BatchAggregator {
    /// A fresh aggregator with an empty buffer.
    pub fn new(threshold: usize) -> (r: BatchAggregator)
        requires
            threshold >= 1,
        ensures
            r@.batch.len() == 0,
            r@.threshold == threshold,
    {
        let r = BatchAggregator { batch: Vec::new(), threshold };
        proof {
            assert(posts_view(r.batch@) =~= Seq::<PostView>::empty());
        }
        r
    }

    /// How many posts wait in the buffer.
    pub fn len(&self) -> (r: usize)
        ensures
            r == self@.batch.len(),
    {
        self.batch.len()
    }

    /// Take in one decoded post.  Exactly [`spec_on_post`].
    pub fn on_post(&mut self, post: Post) -> (r: Option<Vec<Post>>)
        ensures
            ({
                let (nv, flush) = spec_on_post(old(self)@, post@);
                &&& final(self)@ == nv
                &&& match r {
                    Some(batch) => flush == Some(posts_view(batch@)),
                    None => flush is None,
                }
            }),
    {
        let ghost old_batch = self.batch@;
        let ghost pv = post@;
        self.batch.push(post);
        proof {
            assert(posts_view(self.batch@) =~= posts_view(old_batch) + seq![pv]);
        }
        if self.batch.len() >= self.threshold {
            let mut flushed: Vec<Post> = Vec::new();
            core::mem::swap(&mut flushed, &mut self.batch);
            proof {
                assert(posts_view(self.batch@) =~= Seq::<PostView>::empty());
                assert(self@ =~= spec_on_post(old(self)@, pv).0);
            }
            Some(flushed)
        } else {
            proof {
                assert(self@ =~= spec_on_post(old(self)@, pv).0);
            }
            None
        }
    }

    /// Take a timer tick.  Exactly [`spec_on_tick`].
    pub fn on_tick(&mut self) -> (r: Option<Vec<Post>>)
        ensures
            ({
                let (nv, flush) = spec_on_tick(old(self)@);
                &&& final(self)@ == nv
                &&& match r {
                    Some(batch) => flush == Some(posts_view(batch@)),
                    None => flush is None,
                }
            }),
    {
        if self.batch.len() == 0 {
            proof {
                assert(self@ =~= spec_on_tick(old(self)@).0);
            }
            return None;
        }
        let mut flushed: Vec<Post> = Vec::new();
        core::mem::swap(&mut flushed, &mut self.batch);
        proof {
            assert(posts_view(self.batch@) =~= Seq::<PostView>::empty());
            assert(self@ =~= spec_on_tick(old(self)@).0);
        }
        Some(flushed)
    }
}

/// The buffer and the flushes after a run of arriving posts, in order.
pub open spec fn spec_feed(v: AggregatorView, ps: Seq<PostView>) -> (
    AggregatorView,
    Seq<Seq<PostView>>,
)
    decreases ps.len(),
{
    if ps.len() == 0 {
        (v, Seq::empty())
    } else {
        let (v1, f1) = spec_on_post(v, ps[0]);
        let (v2, fs) = spec_feed(v1, ps.drop_first());
        (
            v2,
            (match f1 {
                Some(fl) => seq![fl],
                None => Seq::empty(),
            }) + fs,
        )
    }
}

/// Size trigger: a partly filled buffer that takes exactly enough posts
/// to reach the threshold flushes once, immediately, with every post in
/// arrival order, and the buffer is empty afterwards.  No tick is needed.
pub proof fn lemma_flush_on_size(v: AggregatorView, ps: Seq<PostView>)
    requires
        v.threshold >= 1,
        ps.len() >= 1,
        v.batch.len() + ps.len() == v.threshold,
    ensures
        ({
            let (end, flushes) = spec_feed(v, ps);
            &&& end.batch.len() == 0
            &&& end.threshold == v.threshold
            &&& flushes == seq![v.batch + ps]
        }),
    decreases ps.len(),
{
    let grown = v.batch + seq![ps[0]];
    if ps.len() == 1 {
        assert(grown.len() >= v.threshold);
        let (v1, f1) = spec_on_post(v, ps[0]);
        assert(spec_feed(v1, ps.drop_first()) == (v1, Seq::<Seq<PostView>>::empty()));
        assert(grown =~= v.batch + ps);
        assert(seq![grown] + Seq::<Seq<PostView>>::empty() =~= seq![v.batch + ps]);
    } else {
        assert(grown.len() < v.threshold);
        let v1 = AggregatorView { batch: grown, ..v };
        lemma_flush_on_size(v1, ps.drop_first());
        let (end, fs) = spec_feed(v1, ps.drop_first());
        assert(grown + ps.drop_first() =~= v.batch + ps);
        assert(Seq::<Seq<PostView>>::empty() + fs =~= fs);
    }
}

/// Time trigger: posts too few to reach the threshold all wait in the
/// buffer — no flush happens — and the next tick flushes exactly those
/// posts, in arrival order.
pub proof fn lemma_flush_on_tick(v: AggregatorView, ps: Seq<PostView>)
    requires
        v.threshold >= 1,
        v.batch.len() == 0,
        ps.len() >= 1,
        ps.len() < v.threshold,
    ensures
        ({
            let (end, flushes) = spec_feed(v, ps);
            &&& flushes.len() == 0
            &&& end.batch == ps
            &&& spec_on_tick(end) == (
                (AggregatorView { batch: Seq::<PostView>::empty(), ..end }),
                Some(ps),
            )
        }),
{
    lemma_feed_below_threshold(v, ps);
}

/// Feeding while staying below the threshold only grows the buffer.
proof fn lemma_feed_below_threshold(v: AggregatorView, ps: Seq<PostView>)
    requires
        v.batch.len() + ps.len() < v.threshold,
    ensures
        ({
            let (end, flushes) = spec_feed(v, ps);
            &&& flushes.len() == 0
            &&& end.batch == v.batch + ps
            &&& end.threshold == v.threshold
        }),
    decreases ps.len(),
{
    if ps.len() == 0 {
        assert(v.batch + ps =~= v.batch);
    } else {
        let grown = v.batch + seq![ps[0]];
        assert(grown.len() < v.threshold);
        let v1 = AggregatorView { batch: grown, ..v };
        lemma_feed_below_threshold(v1, ps.drop_first());
        assert(grown + ps.drop_first() =~= v.batch + ps);
        let (end, fs) = spec_feed(v1, ps.drop_first());
        assert(Seq::<Seq<PostView>>::empty() + fs =~= fs);
    }
}

} // verus!
