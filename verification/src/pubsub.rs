//! A model of the ephemeral pub/sub channel: fire-and-forget broadcast
//! with no persistence and no replay.
//!
//! A subscriber sees exactly the messages published after it subscribed,
//! oldest first.  Publishing appends the message to every subscriber's
//! pending sequence at once — that is the fan-out the gateway relies on:
//! each connected client holds one subscription, and all of them receive
//! every batch, independently of one another.
//!
//! The value of a channel is the sequence of its subscribers' pending
//! messages.

use vstd::pervasive::VecAdditionalExecFns;
use vstd::prelude::*;
use vstd::slice::slice_to_vec;

verus! {

/// The broadcast channel: everything published so far, and one cursor per
/// subscriber marking the first message it has not yet received.
pub struct PubSubChannel {
    log: Vec<Vec<u8>>,
    cursors: Vec<usize>,
}

/// What subscribing does: a new subscriber starts with nothing pending —
/// the channel keeps no history for late joiners.
pub open spec fn spec_subscribe(v: Seq<Seq<Seq<u8>>>) -> Seq<Seq<Seq<u8>>> {
    v.push(Seq::empty())
}

/// What publishing does: the message joins every subscriber's pending
/// sequence, at the same position for all of them.
pub open spec fn spec_publish(v: Seq<Seq<Seq<u8>>>, m: Seq<u8>) -> Seq<Seq<Seq<u8>>> {
    Seq::new(v.len(), |i: int| v[i].push(m))
}

/// What one receive does for subscriber `id`: its oldest pending message
/// leaves; every other subscriber is untouched.
pub open spec fn spec_recv(v: Seq<Seq<Seq<u8>>>, id: int) -> (Seq<Seq<Seq<u8>>>, Option<Seq<u8>>) {
    if v[id].len() == 0 {
        (v, None)
    } else {
        (v.update(id, v[id].drop_first()), Some(v[id][0]))
    }
}

impl View for PubSubChannel {
    type V = Seq<Seq<Seq<u8>>>;

    closed spec fn view(&self) -> Seq<Seq<Seq<u8>>> {
        Seq::new(
            self.cursors@.len(),
            |i: int|
                self.log.deep_view().subrange(self.cursors@[i] as int, self.log@.len() as int),
        )
    }
}

impl PubSubChannel {
    /// Every cursor points into the log.
    pub closed spec fn wf(self) -> bool {
        forall|i: int| 0 <= i < self.cursors@.len() ==> self.cursors@[i] <= self.log@.len()
    }

    /// A fresh channel with no subscribers.
    pub fn new() -> (r: PubSubChannel)
        ensures
            r@.len() == 0,
            r.wf(),
    {
        PubSubChannel { log: Vec::new(), cursors: Vec::new() }
    }

    /// Open one subscription; the result names it in later receives.
    /// Exactly [`spec_subscribe`].
    pub fn subscribe(&mut self) -> (id: usize)
        requires
            old(self).wf(),
        ensures
            final(self).wf(),
            id == old(self)@.len(),
            final(self)@ == spec_subscribe(old(self)@),
    {
        let id = self.cursors.len();
        self.cursors.push(self.log.len());
        proof {
            assert(self@ =~~= spec_subscribe(old(self)@));
        }
        id
    }

    /// Broadcast one message to every current subscriber.  Exactly
    /// [`spec_publish`]; the channel keeps no other state, so a publish
    /// with no subscribers is lost — delivery is best effort by design.
    pub fn publish(&mut self, msg: Vec<u8>)
        requires
            old(self).wf(),
        ensures
            final(self).wf(),
            final(self)@ == spec_publish(old(self)@, msg@),
    {
        let ghost mv = msg@;
        self.log.push(msg);
        proof {
            let old_dv = old(self).log.deep_view();
            let new_dv = self.log.deep_view();
            assert(new_dv =~~= old_dv.push(mv)) by {
                assert(self.log@[old(self).log@.len() as int]@ == mv);
                assert(forall|i: int|
                    0 <= i < old_dv.len() ==> new_dv[i] =~= old_dv[i] && old_dv[i]
                        == #[trigger] self.log@[i].deep_view());
            }
            assert forall|i: int| 0 <= i < self@.len() implies self@[i] == #[trigger] spec_publish(
                old(self)@,
                mv,
            )[i] by {
                assert(self@[i] =~~= old(self)@[i].push(mv));
            }
            assert(self@ =~~= spec_publish(old(self)@, mv));
        }
    }

    /// Hand subscriber `id` its oldest pending message, if it has one.
    /// Exactly [`spec_recv`]: no other subscriber is affected.
    pub fn recv(&mut self, id: usize) -> (r: Option<Vec<u8>>)
        requires
            old(self).wf(),
            id < old(self)@.len(),
        ensures
            final(self).wf(),
            ({
                let (nv, out) = spec_recv(old(self)@, id as int);
                &&& final(self)@ == nv
                &&& match r {
                    Some(m) => out == Some(m@),
                    None => out is None,
                }
            }),
    {
        let c = self.cursors[id];
        if c == self.log.len() {
            proof {
                assert(old(self)@[id as int].len() == 0);
                assert(self@ =~~= old(self)@);
            }
            return None;
        }
        let m = slice_to_vec(self.log[c].as_slice());
        self.cursors.set(id, c + 1);
        proof {
            let v = old(self)@;
            assert(m@ == old(self).log.deep_view()[c as int]) by {
                assert(old(self).log.deep_view()[c as int] =~= old(self).log@[c as int]@);
            }
            assert(v[id as int][0] == old(self).log.deep_view()[c as int]);
            assert forall|j: int| 0 <= j < self@.len() && j != id implies self@[j] == v[j] by {
                assert(self.cursors@[j] == old(self).cursors@[j]);
            }
            assert(self@[id as int] =~~= v[id as int].drop_first());
            assert(self@ =~~= spec_recv(v, id as int).0);
        }
        Some(m)
    }
}

/// Fan-out: two clients that subscribe to the same channel both receive a
/// batch published afterwards — the same bytes, each on its own
/// subscription, and neither receive affects the other.
pub proof fn lemma_fanout(v: Seq<Seq<Seq<u8>>>, m: Seq<u8>)
    ensures
        ({
            let a = v.len() as int;
            let v1 = spec_subscribe(v);
            let b = v1.len() as int;
            let v2 = spec_subscribe(v1);
            let v3 = spec_publish(v2, m);
            let (after_a, got_a) = spec_recv(v3, a);
            let (after_b, got_b) = spec_recv(after_a, b);
            &&& got_a == Some(m)
            &&& got_b == Some(m)
        }),
{
    let a = v.len() as int;
    let v1 = spec_subscribe(v);
    let b = v1.len() as int;
    let v2 = spec_subscribe(v1);
    let v3 = spec_publish(v2, m);
    assert(v2[a].len() == 0);
    assert(v3[a] == v2[a].push(m));
    assert(v3[a][0] == m);
    let (after_a, got_a) = spec_recv(v3, a);
    assert(after_a[b] == v3[b]);
    assert(v3[b][0] == m);
}

} // verus!
