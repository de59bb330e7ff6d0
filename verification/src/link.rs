//! What one tick of a linked run does with the datagrams that arrived, and what
//! follows answering a machine that cannot catch up.
//!
//! Polling the transport, decoding a datagram, folding it into the peer and
//! sending a state are the program's. Which of those outcomes the run carries
//! on through, which ones stop it and with what, and whether this machine
//! reopens on its own state, are decided here.

use vstd::prelude::*;

use crate::error::Error;
use crate::net::{Rolled, TickTraffic, after_received, after_unreadable};
use crate::units::Tick;

verus! {

/// Why a peer cannot carry on.
#[derive(Clone, Debug, PartialEq, Eq)]
pub enum Halt {
    /// Every machine simulated the same actions and they did not reach the
    /// same state; what the peer said about it.
    Desync(String),
    /// Anything else that stops the peer, as the peer said it.
    Other(String),
}

/// The run's error for a peer that cannot carry on: a desync is a divergence,
/// and anything else is a halt.
pub open spec fn spec_halted(why: Halt) -> Error {
    match why {
        Halt::Desync(what) => Error::Diverged(what),
        Halt::Other(what) => Error::Halted(what),
    }
}

/// A peer that cannot carry on, sorted into the two things that means.
pub fn halted(why: Halt) -> (r: Error)
    ensures
        r == spec_halted(why),
{
    match why {
        Halt::Desync(what) => Error::Diverged(what),
        Halt::Other(what) => Error::Halted(what),
    }
}

/// One datagram a tick's poll turned up, and what became of it.
#[derive(Debug, PartialEq, Eq)]
pub enum Arrival {
    /// It did not decode. Anything may send anything to a port, so this is
    /// counted and dropped.
    Unreadable,
    /// It decoded and announced actions up to `head`; `received` is what the
    /// peer answered when it was folded in: how far it rolled back, or why
    /// the peer cannot carry on.
    Decoded { head: Tick, received: Result<Rolled, Halt> },
}

/// Whether the peer refused an arrival.
pub open spec fn refused(a: Arrival) -> bool {
    a matches Arrival::Decoded { received: Err(_), .. }
}

/// The run's error for an arrival the peer refused.
pub open spec fn refusal_of(a: Arrival) -> Option<Error> {
    match a {
        Arrival::Decoded { received: Err(why), .. } => Some(spec_halted(why)),
        _ => None,
    }
}

/// The later of two ticks.
pub open spec fn later(a: Tick, b: Tick) -> Tick {
    if b.0 > a.0 { b } else { a }
}

/// The traffic, the newest head anybody has announced, and the error that
/// stops the run, after one arrival: an unreadable datagram is counted; a
/// received one is counted, keeps the deeper rollback and the later head; one
/// the peer refused stops the run with the peer's reason and changes nothing.
pub open spec fn arriving(t: TickTraffic, head: Tick, a: Arrival) -> (TickTraffic, Tick, Option<Error>) {
    match a {
        Arrival::Unreadable => (after_unreadable(t), head, None),
        Arrival::Decoded { head: announced, received } => match received {
            Ok(rolled) => (after_received(t, rolled), later(head, announced), None),
            Err(why) => (t, head, Some(spec_halted(why))),
        },
    }
}

/// The same after every one of `arrivals` in order, stopping at the first
/// the peer refused.
pub open spec fn arriving_all(t: TickTraffic, head: Tick, arrivals: Seq<Arrival>) -> (TickTraffic, Tick, Option<Error>)
    decreases arrivals.len(),
{
    if arrivals.len() == 0 {
        (t, head, None)
    } else {
        let (t1, h1, stop) = arriving_all(t, head, arrivals.drop_last());
        if stop is Some {
            (t1, h1, stop)
        } else {
            arriving(t1, h1, arrivals.last())
        }
    }
}

/// The heads the peer received, in order.
pub open spec fn heads_of(arrivals: Seq<Arrival>) -> Seq<Tick>
    decreases arrivals.len(),
{
    if arrivals.len() == 0 {
        Seq::empty()
    } else {
        match arrivals.last() {
            Arrival::Decoded { head, received: Ok(_) } => heads_of(arrivals.drop_last()).push(head),
            _ => heads_of(arrivals.drop_last()),
        }
    }
}

/// The newest of `old` and every one of `heads`.
pub open spec fn newest(old: Tick, heads: Seq<Tick>) -> Tick
    decreases heads.len(),
{
    if heads.len() == 0 {
        old
    } else {
        later(newest(old, heads.drop_last()), heads.last())
    }
}

/// [`newest`] is the maximum: no earlier than `old` or any head, and one of them.
pub proof fn lemma_newest_is_the_maximum(old: Tick, heads: Seq<Tick>)
    ensures
        newest(old, heads).0 >= old.0,
        forall|i: int| 0 <= i < heads.len() ==> #[trigger] heads[i].0 <= newest(old, heads).0,
        newest(old, heads) == old || exists|i: int| 0 <= i < heads.len() && newest(old, heads) == heads[i],
    decreases heads.len(),
{
    if heads.len() > 0 {
        let init = heads.drop_last();
        lemma_newest_is_the_maximum(old, init);
        assert forall|i: int| 0 <= i < heads.len() implies #[trigger] heads[i].0 <= newest(old, heads).0 by {
            if i < heads.len() - 1 {
                assert(init[i] == heads[i]);
            }
        }
        if newest(old, heads) != old && newest(old, heads) != heads.last() {
            let i = choose|i: int| 0 <= i < init.len() && newest(old, init) == init[i];
            assert(heads[i] == init[i]);
        }
    }
}

/// The newest head anybody has announced, given the one known before this
/// tick and the heads of the datagrams the peer received.
pub fn newest_head(old: Tick, heads: &Vec<Tick>) -> (r: Tick)
    ensures
        r == newest(old, heads@),
        r.0 >= old.0,
        forall|i: int| 0 <= i < heads@.len() ==> #[trigger] heads@[i].0 <= r.0,
        r == old || exists|i: int| 0 <= i < heads@.len() && r == heads@[i],
{
    let mut r = old;
    let mut i: usize = 0;
    while i < heads.len()
        invariant
            i <= heads@.len(),
            r == newest(old, heads@.take(i as int)),
        decreases heads@.len() - i,
    {
        proof {
            assert(heads@.take(i + 1).drop_last() =~= heads@.take(i as int));
        }
        if heads[i].0 > r.0 {
            r = heads[i];
        }
        i = i + 1;
    }
    proof {
        assert(heads@.take(heads@.len() as int) =~= heads@);
        lemma_newest_is_the_maximum(old, heads@);
    }
    r
}

/// Folds one arrival into this tick's traffic and the newest head heard, and
/// answers whether the run carries on: an unreadable datagram never stops it;
/// only the peer's refusal does, as a divergence or a halt.
pub fn arrive(traffic: &mut TickTraffic, heard_head: &mut Tick, arrival: Arrival) -> (r: Result<(), Error>)
    ensures
        ({
            let (t, h, stop) = arriving(*old(traffic), *old(heard_head), arrival);
            &&& *final(traffic) == t
            &&& *final(heard_head) == h
            &&& match stop {
                None => r is Ok,
                Some(why) => r == Err::<(), Error>(why),
            }
        }),
{
    match arrival {
        Arrival::Unreadable => {
            traffic.unreadable();
            Ok(())
        },
        Arrival::Decoded { head, received } => match received {
            Ok(rolled) => {
                traffic.received(rolled);
                if head.0 > heard_head.0 {
                    *heard_head = head;
                }
                Ok(())
            },
            Err(why) => Err(halted(why)),
        },
    }
}

/// Folds every arrival of one poll in, in order, stopping at the first the
/// peer refused.
#[verifier::loop_isolation(false)]
pub fn collect(traffic: &mut TickTraffic, heard_head: &mut Tick, arrivals: Vec<Arrival>) -> (r: Result<(), Error>)
    ensures
        ({
            let (t, h, stop) = arriving_all(*old(traffic), *old(heard_head), arrivals@);
            &&& *final(traffic) == t
            &&& *final(heard_head) == h
            &&& match stop {
                None => r is Ok,
                Some(why) => r == Err::<(), Error>(why),
            }
        }),
{
    let ghost all = arrivals@;
    let ghost t0 = *traffic;
    let ghost h0 = *heard_head;
    for arrival in it: arrivals.into_iter()
        invariant
            it.seq() == all,
            ({
                let (t, h, stop) = arriving_all(t0, h0, all.take(it.index() as int));
                &&& stop is None
                &&& *traffic == t
                &&& *heard_head == h
            }),
    {
        let ghost k = it.index() as int;
        proof {
            assert(all.take(k + 1).drop_last() =~= all.take(k));
            assert(all.take(k + 1).last() == all[k]);
        }
        let ghost before = (*traffic, *heard_head);
        assert(arriving_all(t0, h0, all.take(k + 1)) == arriving(before.0, before.1, all[k]));
        match arrive(traffic, heard_head, arrival) {
            Ok(()) => {},
            Err(why) => {
                assert(arriving(before.0, before.1, all[k]).2 == Some(why));
                proof {
                    lemma_stopped_stays(t0, h0, all, k + 1);
                    assert(all.take(all.len() as int) =~= all);
                }
                return Err(why);
            },
        }
    }
    proof {
        assert(all.take(all.len() as int) =~= all);
    }
    Ok(())
}

/// Once a refusal has stopped the fold, later arrivals change nothing.
proof fn lemma_stopped_stays(t: TickTraffic, head: Tick, arrivals: Seq<Arrival>, k: int)
    requires
        0 <= k <= arrivals.len(),
        arriving_all(t, head, arrivals.take(k)).2 is Some,
    ensures
        arriving_all(t, head, arrivals) == arriving_all(t, head, arrivals.take(k)),
    decreases arrivals.len() - k,
{
    if k < arrivals.len() {
        assert(arrivals.take(k + 1).drop_last() =~= arrivals.take(k));
        lemma_stopped_stays(t, head, arrivals, k + 1);
    } else {
        assert(arrivals.take(k) =~= arrivals);
    }
}

/// Nothing but the peer stops a tick: with no refusal among the arrivals the
/// tick carries on and the newest head is the maximum of the one before and
/// every head received; with one, the tick stops with the first refusal's
/// reason, sorted into a divergence or a halt.
pub proof fn lemma_only_the_peer_stops_a_tick(t: TickTraffic, head: Tick, arrivals: Seq<Arrival>)
    ensures
        (forall|i: int| 0 <= i < arrivals.len() ==> !#[trigger] refused(arrivals[i])) ==> {
            &&& arriving_all(t, head, arrivals).2 is None
            &&& arriving_all(t, head, arrivals).1 == newest(head, heads_of(arrivals))
        },
        arriving_all(t, head, arrivals).2 matches Some(e) ==> exists|i: int|
            0 <= i < arrivals.len() && #[trigger] refused(arrivals[i])
                && (forall|j: int| 0 <= j < i ==> !refused(arrivals[j]))
                && refusal_of(arrivals[i]) == Some(e),
    decreases arrivals.len(),
{
    if arrivals.len() > 0 {
        let init = arrivals.drop_last();
        lemma_only_the_peer_stops_a_tick(t, head, init);
        if forall|i: int| 0 <= i < arrivals.len() ==> !#[trigger] refused(arrivals[i]) {
            assert forall|i: int| 0 <= i < init.len() implies !#[trigger] refused(init[i]) by {
                assert(init[i] == arrivals[i]);
                assert(!refused(arrivals[i]));
            }
            assert(!refused(arrivals[arrivals.len() - 1]));
            let last = arrivals.last();
            match last {
                Arrival::Decoded { head: announced, received: Ok(_) } => {
                    assert(heads_of(arrivals) == heads_of(init).push(announced));
                    assert(heads_of(arrivals).drop_last() =~= heads_of(init));
                    assert(heads_of(arrivals).last() == announced);
                },
                _ => {
                    assert(heads_of(arrivals) == heads_of(init));
                },
            }
        }
        let (t1, h1, stop) = arriving_all(t, head, init);
        if stop is Some {
            let e = stop->0;
            let i = choose|i: int|
                0 <= i < init.len() && #[trigger] refused(init[i])
                    && (forall|j: int| 0 <= j < i ==> !refused(init[j]))
                    && refusal_of(init[i]) == Some(e);
            assert(arrivals[i] == init[i]);
            assert forall|j: int| 0 <= j < i implies !refused(arrivals[j]) by {
                assert(arrivals[j] == init[j]);
            }
        } else if arriving_all(t, head, arrivals).2 is Some {
            let i = arrivals.len() - 1;
            assert(refused(arrivals[i]));
            assert forall|j: int| 0 <= j < i implies !refused(arrivals[j]) by {
                assert(arrivals[j] == init[j]);
                if refused(init[j]) {
                    // A refusal earlier would have stopped the fold before.
                    lemma_refusal_stops(t, head, init, j);
                }
            }
        }
    }
}

/// A refusal among the arrivals stops the fold.
proof fn lemma_refusal_stops(t: TickTraffic, head: Tick, arrivals: Seq<Arrival>, i: int)
    requires
        0 <= i < arrivals.len(),
        refused(arrivals[i]),
    ensures
        arriving_all(t, head, arrivals).2 is Some,
    decreases arrivals.len(),
{
    if i < arrivals.len() - 1 {
        let init = arrivals.drop_last();
        assert(init[i] == arrivals[i]);
        lemma_refusal_stops(t, head, init, i);
    }
}

/// What became of a state sent to a machine that cannot catch up.
#[derive(Clone, Copy, Debug, PartialEq, Eq, Hash, Structural)]
pub enum Delivery {
    /// The state would not encode, so nothing went.
    Unencodable,
    /// It encoded and the transport would not send it.
    Unsent,
    /// It went.
    Sent,
}

/// What answering a stuck machine leaves this one doing: whether it reopens on
/// its own state, and the answer, which is never an error. A state that went
/// means the stuck machine restarts there, so this one restarts there too and
/// stops waiting for rows the other is never going to send; a state that did
/// not go changes nothing here, because nobody else restarted.
pub fn after_answering(delivery: Delivery) -> (r: (bool, Result<(), Error>))
    ensures
        r.0 == (delivery == Delivery::Sent),
        r.1 is Ok,
{
    match delivery {
        Delivery::Sent => (true, Ok(())),
        Delivery::Unencodable | Delivery::Unsent => (false, Ok(())),
    }
}

} // verus!
