//! What a linked run decides about the other machines: what it reports about
//! its traffic, who has left, who answers a machine that cannot catch up, and
//! which seat is behind which connection.
//!
//! The sockets, the datagrams and the peer that simulates are the program's.
//! What one tick does with what arrived, and what follows answering a stuck
//! machine, are in `link`; the roster messages are in `agreement`.

use std::collections::BTreeMap;

use vstd::prelude::*;
use vstd::std_specs::btree::increasing_seq;
use vstd::std_specs::iter::IteratorSpec;

use crate::cli::{Argument, ArgumentView};
use crate::units::{PeerId, PlayerId, Tick};

verus! {

broadcast use vstd::std_specs::btree::group_btree_axioms;

/// How deep one tick's rollback went, and a zeroed one where none happened.
#[derive(Clone, Copy, Debug, Default, PartialEq, Eq, Hash, Structural)]
pub struct Rolled {
    /// How many ticks were re-simulated.
    pub ticks: u8,
}

impl Rolled {
    /// Whether a rollback happened at all.
    pub fn happened(&self) -> (r: bool)
        ensures
            r == (self.ticks > 0),
    {
        self.ticks > 0
    }
}

/// What the peer did with one tick: whether it simulated or stalled.
#[derive(Clone, Copy, Debug, Default, PartialEq, Eq, Hash, Structural)]
pub struct Advanced {
    /// The peer declined to simulate, because it was as far ahead of the tick
    /// every seat had confirmed as it is allowed to be.
    pub stalled: bool,
}

/// What one tick over a transport did.
#[derive(Clone, Copy, Debug, Default, PartialEq, Eq, Hash, Structural)]
pub struct TickTraffic {
    /// Whether the peer simulated or stalled.
    pub advanced: Advanced,
    /// The deepest rollback this tick's arrivals caused.
    pub rolled: Rolled,
    /// How many datagrams were folded in.
    pub heard: u16,
    /// How many were sent.
    pub sent: u16,
    /// How many arrived and could not be decoded.
    pub undecodable: u16,
    /// How many peers the transport was reaching when the sending happened.
    pub peers: u16,
    /// Whether a whole state arrived this tick and was adopted.
    pub rescued: bool,
}

/// A tick's traffic with one more datagram folded in, which rolled the peer
/// back by `rolled`: one more heard, standing still at the largest count, and
/// the deeper of the two rollbacks kept.
pub open spec fn after_received(t: TickTraffic, rolled: Rolled) -> TickTraffic {
    TickTraffic {
        heard: if t.heard == u16::MAX { u16::MAX } else { (t.heard + 1) as u16 },
        rolled: if rolled.ticks > t.rolled.ticks { rolled } else { t.rolled },
        ..t
    }
}

/// A tick's traffic with one more datagram that would not decode.
pub open spec fn after_unreadable(t: TickTraffic) -> TickTraffic {
    TickTraffic {
        undecodable: if t.undecodable == u16::MAX { u16::MAX } else { (t.undecodable + 1) as u16 },
        ..t
    }
}

impl TickTraffic {
    /// Keeps the deeper of this tick's rollback so far and `rolled`.
    pub fn deepen(&mut self, rolled: Rolled)
        ensures
            *final(self) == (TickTraffic {
                rolled: if rolled.ticks > old(self).rolled.ticks { rolled } else { old(self).rolled },
                ..*old(self)
            }),
    {
        if rolled.ticks > self.rolled.ticks {
            self.rolled = rolled;
        }
    }

    /// One datagram folded in, which rolled the peer back by `rolled`.
    pub fn received(&mut self, rolled: Rolled)
        ensures
            *final(self) == after_received(*old(self), rolled),
    {
        self.heard = self.heard.saturating_add(1);
        self.deepen(rolled);
    }

    /// Notes how many peers the transport reaches as this tick's datagram goes
    /// out, standing still at the largest count the field holds.
    pub fn reaching(&mut self, peers: usize)
        ensures
            *final(self) == (TickTraffic {
                peers: if peers > u16::MAX { u16::MAX } else { peers as u16 },
                ..*old(self)
            }),
    {
        self.peers = if peers > u16::MAX as usize { u16::MAX } else { peers as u16 };
    }

    /// One datagram sent.
    pub fn sent_one(&mut self)
        ensures
            *final(self) == (TickTraffic {
                sent: if old(self).sent == u16::MAX { u16::MAX } else { (old(self).sent + 1) as u16 },
                ..*old(self)
            }),
    {
        self.sent = self.sent.saturating_add(1);
    }

    /// One datagram that would not decode: counted and dropped, because a
    /// socket carries whatever anybody sends to it.
    pub fn unreadable(&mut self)
        ensures
            *final(self) == after_unreadable(*old(self)),
    {
        self.undecodable = self.undecodable.saturating_add(1);
    }
}

/// What a whole run over a transport did: counted rather than sampled.
#[derive(Clone, Copy, Debug, Default, PartialEq, Eq, Hash, Structural)]
pub struct Traffic {
    /// How many datagrams were folded in.
    pub heard: u64,
    /// How many were sent.
    pub sent: u64,
    /// How many arrived and could not be read.
    pub undecodable: u64,
    /// How many corrections rolled this peer back.
    pub rollbacks: u64,
    /// How many ticks were re-simulated over all of them.
    pub resimulated: u64,
    /// The deepest single rollback, in ticks.
    pub deepest: u8,
    /// How many times this machine was handed a whole state.
    pub rescues: u64,
    /// How many ticks this peer declined to simulate.
    pub stalls: u64,
}

/// `a + b`, or the largest `u64` where that would not fit.
pub open spec fn sat_add(a: int, b: int) -> int {
    if a + b > u64::MAX { u64::MAX as int } else { a + b }
}

/// The totals with one more tick's traffic counted in.
pub open spec fn spec_fold(t: Traffic, tick: TickTraffic) -> Traffic {
    let rolled = tick.rolled.ticks > 0;
    Traffic {
        heard: sat_add(t.heard as int, tick.heard as int) as u64,
        sent: sat_add(t.sent as int, tick.sent as int) as u64,
        undecodable: sat_add(t.undecodable as int, tick.undecodable as int) as u64,
        rollbacks: if rolled { sat_add(t.rollbacks as int, 1) as u64 } else { t.rollbacks },
        resimulated: if rolled {
            sat_add(t.resimulated as int, tick.rolled.ticks as int) as u64
        } else {
            t.resimulated
        },
        deepest: if rolled && tick.rolled.ticks > t.deepest { tick.rolled.ticks } else { t.deepest },
        rescues: if tick.rescued { sat_add(t.rescues as int, 1) as u64 } else { t.rescues },
        stalls: if tick.advanced.stalled { sat_add(t.stalls as int, 1) as u64 } else { t.stalls },
    }
}

impl Traffic {
    /// Folds one tick's traffic into the totals, every count saturating.
    pub fn fold(&mut self, tick: TickTraffic)
        ensures
            *final(self) == spec_fold(*old(self), tick),
    {
        self.heard = self.heard.saturating_add(tick.heard as u64);
        self.sent = self.sent.saturating_add(tick.sent as u64);
        self.undecodable = self.undecodable.saturating_add(tick.undecodable as u64);
        if tick.rolled.happened() {
            self.rollbacks = self.rollbacks.saturating_add(1);
            self.resimulated = self.resimulated.saturating_add(tick.rolled.ticks as u64);
            if tick.rolled.ticks > self.deepest {
                self.deepest = tick.rolled.ticks;
            }
        }
        if tick.advanced.stalled {
            self.stalls = self.stalls.saturating_add(1);
        }
        if tick.rescued {
            self.rescues = self.rescues.saturating_add(1);
        }
    }
}

/// The totals after each of `ticks`, in order, folded into `t`.
pub open spec fn fold_all(t: Traffic, ticks: Seq<TickTraffic>) -> Traffic
    decreases ticks.len(),
{
    if ticks.len() == 0 {
        t
    } else {
        spec_fold(fold_all(t, ticks.drop_last()), ticks.last())
    }
}

/// The sum of `f` over `ticks`.
pub open spec fn total(ticks: Seq<TickTraffic>, f: spec_fn(TickTraffic) -> int) -> int
    decreases ticks.len(),
{
    if ticks.len() == 0 {
        0
    } else {
        total(ticks.drop_last(), f) + f(ticks.last())
    }
}

/// The deepest rollback among `ticks`.
pub open spec fn deepest(ticks: Seq<TickTraffic>) -> u8
    decreases ticks.len(),
{
    if ticks.len() == 0 {
        0
    } else if ticks.last().rolled.ticks > deepest(ticks.drop_last()) {
        ticks.last().rolled.ticks
    } else {
        deepest(ticks.drop_last())
    }
}

/// `n`, or the largest `u64` where it does not fit.
pub open spec fn clamp(n: int) -> int {
    if n > u64::MAX { u64::MAX as int } else { n }
}

/// What a run with nothing counted yet holds.
pub open spec fn no_traffic() -> Traffic {
    Traffic {
        heard: 0,
        sent: 0,
        undecodable: 0,
        rollbacks: 0,
        resimulated: 0,
        deepest: 0,
        rescues: 0,
        stalls: 0,
    }
}

proof fn lemma_total_is_nonnegative(ticks: Seq<TickTraffic>, f: spec_fn(TickTraffic) -> int)
    requires
        forall|t: TickTraffic| #[trigger] f(t) >= 0,
    ensures
        total(ticks, f) >= 0,
    decreases ticks.len(),
{
    if ticks.len() > 0 {
        lemma_total_is_nonnegative(ticks.drop_last(), f);
    }
}

/// A run's traffic is counted rather than sampled: each total is the sum over
/// every tick, standing still at the largest `u64`, and the deepest rollback
/// is the deepest of any tick.
pub proof fn lemma_counted_not_sampled(ticks: Seq<TickTraffic>)
    ensures
        ({
            let t = fold_all(no_traffic(), ticks);
            &&& t.heard == clamp(total(ticks, |k: TickTraffic| k.heard as int))
            &&& t.sent == clamp(total(ticks, |k: TickTraffic| k.sent as int))
            &&& t.undecodable == clamp(total(ticks, |k: TickTraffic| k.undecodable as int))
            &&& t.rollbacks == clamp(total(ticks, |k: TickTraffic| if k.rolled.ticks > 0 { 1int } else { 0 }))
            &&& t.resimulated == clamp(total(ticks, |k: TickTraffic| k.rolled.ticks as int))
            &&& t.deepest == deepest(ticks)
            &&& t.rescues == clamp(total(ticks, |k: TickTraffic| if k.rescued { 1int } else { 0 }))
            &&& t.stalls == clamp(total(ticks, |k: TickTraffic| if k.advanced.stalled { 1int } else { 0 }))
        }),
    decreases ticks.len(),
{
    if ticks.len() > 0 {
        let init = ticks.drop_last();
        lemma_counted_not_sampled(init);
        lemma_total_is_nonnegative(init, |k: TickTraffic| k.heard as int);
        lemma_total_is_nonnegative(init, |k: TickTraffic| k.sent as int);
        lemma_total_is_nonnegative(init, |k: TickTraffic| k.undecodable as int);
        lemma_total_is_nonnegative(init, |k: TickTraffic| if k.rolled.ticks > 0 { 1int } else { 0 });
        lemma_total_is_nonnegative(init, |k: TickTraffic| k.rolled.ticks as int);
        lemma_total_is_nonnegative(init, |k: TickTraffic| if k.rescued { 1int } else { 0 });
        lemma_total_is_nonnegative(init, |k: TickTraffic| if k.advanced.stalled { 1int } else { 0 });
    }
}

/// The seat the machine behind connection `peer` plays: peer `n` plays seat
/// `n - 1`, because a seat is counted from nought and a peer from one, and
/// peer nought, which is nobody, reads as seat nought.
pub open spec fn seat_behind(peer: PeerId) -> u16 {
    (if peer.0 == 0 { 0 } else { peer.0 - 1 }) as u16
}

/// The connection that plays `seat`, standing still at the last one.
pub open spec fn peer_playing(seat: PlayerId) -> u16 {
    (if seat.0 == u16::MAX { u16::MAX as int } else { seat.0 + 1 }) as u16
}

/// The seat a connection plays. Saturating, so that it is total.
pub fn seat_of(peer: PeerId) -> (r: PlayerId)
    ensures
        r.0 == seat_behind(peer),
{
    PlayerId(peer.0.saturating_sub(1))
}

/// The connection that plays a seat: the other half of [`seat_of`].
pub fn peer_of(seat: PlayerId) -> (r: PeerId)
    ensures
        r.0 == peer_playing(seat),
{
    PeerId(seat.0.saturating_add(1))
}

/// [`peer_of`] and [`seat_of`] undo each other: every seat but the last has a
/// connection, and every connection but nobody's has a seat.
pub proof fn lemma_seat_and_peer_undo_each_other(seat: PlayerId, peer: PeerId)
    ensures
        seat.0 < u16::MAX ==> seat_behind(PeerId(peer_playing(seat))) == seat.0,
        peer.0 > 0 ==> peer_playing(PlayerId(seat_behind(peer))) == peer.0,
{
}

/// The seat at the far end of the one link `--listen` with `--connect` names.
///
/// Two flags name one other machine, so what they can arrange is the pair of
/// seats 0 and 1: each reaches the other. A seat above one is refused before
/// any socket is bound.
pub fn pair_with(seat: PlayerId) -> (r: Result<PlayerId, Argument>)
    ensures
        seat.0 <= 1 ==> (r matches Ok(other) && other.0 == 1 - seat.0),
        seat.0 > 1 ==> (r matches Err(why) && why@ == (ArgumentView::Pairing { seat })),
{
    match 1u16.checked_sub(seat.0) {
        Some(other) => Ok(PlayerId(other)),
        None => Err(Argument::Pairing { seat }),
    }
}

/// How far past its own tick a machine proposes that a seat left: past
/// anything any peer can have confirmed, so agreeing on it rolls nobody back.
pub fn departure_lead(delay: u8, ahead: u8) -> (r: u64)
    ensures
        r == delay + ahead + 1,
{
    delay as u64 + ahead as u64 + 1
}

/// Whether the rows a peer waits for are older than any window still carries:
/// the newest head anybody announced is more than a window past the tick every
/// seat has been confirmed to.
pub open spec fn stuck(heard_head: Tick, agreed: Tick, window: u64) -> bool {
    heard_head.0 > sat_add(agreed.0 as int, window as int)
}

/// Whether the rows a peer waits for are gone for good.
pub fn is_stuck(heard_head: Tick, agreed: Tick, window: u64) -> (r: bool)
    ensures
        r == stuck(heard_head, agreed, window),
{
    heard_head.0 > agreed.0.saturating_add(window)
}

/// A machine on its own is never stuck: nothing has announced anything, so
/// there is nothing it is behind.
pub proof fn lemma_alone_is_never_stuck(agreed: Tick, window: u64)
    ensures
        !stuck(Tick(0), agreed, window),
{
}

/// Who has proposed what about which seat leaving, and what has been agreed.
///
/// Nothing is applied until everybody still here has said what they think, and
/// what is applied is the earliest of those opinions, which is the same number
/// on every machine because it is the same set.
#[derive(Clone, Debug, Default, PartialEq, Eq)]
pub struct Departures {
    /// How many seats the session has.
    seats: u16,
    /// Proposals, by the seat leaving and then by the seat proposing.
    proposed: BTreeMap<u16, BTreeMap<u16, Tick>>,
    /// What has been agreed and applied.
    agreed: BTreeMap<u16, Tick>,
}

/// [`Departures`] as maps.
#[verifier::ext_equal]
pub struct DeparturesView {
    pub seats: u16,
    pub proposed: Map<u16, Map<u16, Tick>>,
    pub agreed: Map<u16, Tick>,
}

impl View for Departures {
    type V = DeparturesView;

    closed spec fn view(&self) -> DeparturesView {
        DeparturesView {
            seats: self.seats,
            proposed: self.proposed@.map_values(|m: BTreeMap<u16, Tick>| m@),
            agreed: self.agreed@,
        }
    }
}

/// What one seat's opinions are once `from` has said `at`: the earliest that
/// machine ever said, so hearing it twice cannot move the answer later.
pub open spec fn opinions_after(v: DeparturesView, seat: u16, from: u16, at: Tick) -> Map<u16, Tick> {
    let had = if v.proposed.contains_key(seat) { v.proposed[seat] } else { Map::empty() };
    if had.contains_key(from) && had[from].0 <= at.0 {
        had
    } else {
        had.insert(from, at)
    }
}

/// Whether every seat still in the session, other than the one leaving, has
/// an opinion in `opinions`.
pub open spec fn complete(v: DeparturesView, seat: u16, opinions: Map<u16, Tick>) -> bool {
    forall|live: u16|
        live < v.seats && live != seat && !v.agreed.contains_key(live) ==> #[trigger] opinions.contains_key(live)
}

/// Whether `t` is the earliest of `opinions`.
pub open spec fn is_earliest(opinions: Map<u16, Tick>, t: Tick) -> bool {
    &&& exists|k: u16| #[trigger] opinions.contains_key(k) && opinions[k] == t
    &&& forall|k: u16| #[trigger] opinions.contains_key(k) ==> t.0 <= opinions[k].0
}

/// Whether any of the first `players` seats is still in the session.
pub open spec fn any_live(v: DeparturesView, players: u16) -> bool {
    exists|s: u16| s < players && !v.agreed.contains_key(s)
}

/// Whether `s` is the lowest of the first `players` seats still in the session.
pub open spec fn is_lowest_live(v: DeparturesView, players: u16, s: u16) -> bool {
    &&& s < players
    &&& !v.agreed.contains_key(s)
    &&& forall|t: u16| t < s ==> #[trigger] v.agreed.contains_key(t)
}

/// The seat that answers a machine that cannot catch up: the lowest live one
/// of the first `players`, and `me` where every one of them has left.
pub open spec fn authority_of(v: DeparturesView, players: u16, me: PlayerId) -> PlayerId {
    if any_live(v, players) {
        PlayerId(choose|s: u16| is_lowest_live(v, players, s))
    } else {
        me
    }
}

/// The earliest opinion in a table that has one.
pub open spec fn earliest_of(opinions: Map<u16, Tick>) -> Tick {
    choose|t: Tick| is_earliest(opinions, t)
}

/// What one machine's opinion about a seat leaving does to the table, and the
/// tick it answers: a seat already agreed is left alone and answers nothing;
/// otherwise the opinion is recorded, and the departure is agreed, on the
/// earliest opinion, exactly when the set of live seats' opinions is complete.
pub open spec fn proposal(v: DeparturesView, seat: u16, from: u16, at: Tick) -> (DeparturesView, Option<Tick>) {
    if v.agreed.contains_key(seat) {
        (v, None)
    } else {
        let opinions = opinions_after(v, seat, from, at);
        let proposed = v.proposed.insert(seat, opinions);
        if complete(v, seat, opinions) {
            let t = earliest_of(opinions);
            (DeparturesView { seats: v.seats, proposed, agreed: v.agreed.insert(seat, t) }, Some(t))
        } else {
            (DeparturesView { seats: v.seats, proposed, agreed: v.agreed }, None)
        }
    }
}

/// A departure is applied once: after a seat has been agreed, no opinion about
/// it changes the table, and none is answered with a tick.
pub proof fn lemma_applied_once(v: DeparturesView, seat: u16, from: u16, at: Tick)
    requires
        v.agreed.contains_key(seat),
    ensures
        proposal(v, seat, from, at) == (v, Option::<Tick>::None),
{
}

/// There is one earliest opinion, so naming it picks no arbitrary one.
pub proof fn lemma_earliest_is_unique(opinions: Map<u16, Tick>, t: Tick)
    requires
        is_earliest(opinions, t),
    ensures
        earliest_of(opinions) == t,
{
    let c = earliest_of(opinions);
    assert(is_earliest(opinions, c));
    let kc = choose|k: u16| #[trigger] opinions.contains_key(k) && opinions[k] == c;
    let kt = choose|k: u16| #[trigger] opinions.contains_key(k) && opinions[k] == t;
    assert(t.0 <= opinions[kc].0);
    assert(c.0 <= opinions[kt].0);
}

/// The earliest value in a non-empty table of opinions.
fn earliest(opinions: &BTreeMap<u16, Tick>) -> (r: Tick)
    requires
        opinions@.dom().len() > 0,
    ensures
        is_earliest(opinions@, r),
{
    let mut best: Option<Tick> = None;
    let ghost v = vstd::std_specs::btree::spec_btree_map_iter(opinions).remaining();
    let ghost mut count: int = 0;
    for kv in it: opinions.iter()
        invariant
            it.seq() == v,
            count == it.index(),
            best is None <==> count == 0,
            best matches Some(b) ==> {
                &&& exists|j: int| 0 <= j < count && *v[j].1 == b
                &&& forall|j: int| 0 <= j < count ==> b.0 <= (#[trigger] v[j]).1.0
            },
    {
        let t = *kv.1;
        best = match best {
            None => Some(t),
            Some(b) => if t.0 < b.0 { Some(t) } else { Some(b) },
        };
        proof {
            count = count + 1;
        }
    }
    proof {
        assert(count == v.len());
        let b = best->0;
        let j = choose|j: int| 0 <= j < count && *v[j].1 == b;
        assert(opinions@.contains_key(*v[j].0) && opinions@[*v[j].0] == *v[j].1);
        assert forall|k: u16| #[trigger] opinions@.contains_key(k) implies b.0 <= opinions@[k].0 by {
            assert(v.contains((&k, &opinions@[k])));
            let i = choose|i: int| 0 <= i < v.len() && v[i] == (&k, &opinions@[k]);
            assert(b.0 <= v[i].1.0);
        }
    }
    match best {
        Some(b) => b,
        None => Tick(0),
    }
}

/// Whether `r` is the table `m`, one entry per seat, in increasing seat order.
pub open spec fn lists(r: Seq<(PlayerId, Tick)>, m: Map<u16, Tick>) -> bool {
    &&& r.len() == m.dom().len()
    &&& forall|i: int| 0 <= i < r.len() ==> #[trigger] m.contains_key(r[i].0.0) && m[r[i].0.0] == r[i].1
    &&& forall|i: int, j: int| 0 <= i < j < r.len() ==> r[i].0.0 < r[j].0.0
    &&& forall|k: u16| #[trigger] m.contains_key(k) ==> exists|i: int| 0 <= i < r.len() && r[i].0.0 == k
}

/// The entries of a table of ticks by seat, in seat order.
pub(crate) fn entries(m: &BTreeMap<u16, Tick>) -> (r: Vec<(PlayerId, Tick)>)
    ensures
        lists(r@, m@),
{
    let mut out: Vec<(PlayerId, Tick)> = Vec::new();
    let ghost v = vstd::std_specs::btree::spec_btree_map_iter(m).remaining();
    for kv in it: m.iter()
        invariant
            it.seq() == v,
            out@.len() == it.index(),
            forall|i: int| 0 <= i < out@.len() ==> out@[i] == (PlayerId(*v[i].0), *v[i].1),
    {
        out.push((PlayerId(*kv.0), *kv.1));
    }
    proof {
        let keys = v.map_values(|kv: (&u16, &Tick)| *kv.0);
        assert(increasing_seq(keys));
        crate::order::lemma_increasing_keys(keys);
        assert forall|i: int, j: int| 0 <= i < j < out@.len() implies out@[i].0.0 < out@[j].0.0 by {
            assert(keys[i] == out@[i].0.0 && keys[j] == out@[j].0.0);
        }
        assert forall|k: u16| #[trigger] m@.contains_key(k) implies exists|i: int|
            0 <= i < out@.len() && out@[i].0.0 == k by {
            assert(v.contains((&k, &m@[k])));
            let i = choose|i: int| 0 <= i < v.len() && v[i] == (&k, &m@[k]);
            assert(out@[i].0.0 == k);
        }
    }
    out
}

impl Departures {
    /// A table for a session of `seats` seats, with nobody gone.
    pub fn new(seats: u16) -> (r: Departures)
        ensures
            r@.seats == seats,
            r@.proposed == Map::<u16, Map<u16, Tick>>::empty(),
            r@.agreed == Map::<u16, Tick>::empty(),
    {
        let r = Departures { seats, proposed: BTreeMap::new(), agreed: BTreeMap::new() };
        assert(r@.proposed =~= Map::<u16, Map<u16, Tick>>::empty());
        r
    }

    /// The tick a seat left on, once it has been agreed.
    pub fn agreed(&self, seat: PlayerId) -> (r: Option<Tick>)
        ensures
            r == (if self@.agreed.contains_key(seat.0) { Some(self@.agreed[seat.0]) } else { None }),
    {
        match self.agreed.get(&seat.0) {
            Some(at) => Some(*at),
            None => None,
        }
    }

    /// Whether a seat is still in the session.
    pub fn is_live(&self, seat: PlayerId) -> (r: bool)
        ensures
            r == !self@.agreed.contains_key(seat.0),
    {
        !self.agreed.contains_key(&seat.0)
    }

    /// Takes a departure decided elsewhere as a fact, keeping the earlier of it
    /// and any agreed already.
    pub fn adopt(&mut self, seat: PlayerId, at: Tick)
        ensures
            final(self)@.seats == old(self)@.seats,
            final(self)@.proposed == old(self)@.proposed,
            final(self)@.agreed == old(self)@.agreed.insert(
                seat.0,
                if old(self)@.agreed.contains_key(seat.0) && old(self)@.agreed[seat.0].0 < at.0 {
                    old(self)@.agreed[seat.0]
                } else {
                    at
                },
            ),
    {
        let earliest = match self.agreed.get(&seat.0) {
            Some(already) => if already.0 < at.0 { *already } else { at },
            None => at,
        };
        self.agreed.insert(seat.0, earliest);
    }

    /// Every departure that has been agreed, as a seat and a tick, in seat order.
    pub fn all(&self) -> (r: Vec<(PlayerId, Tick)>)
        ensures
            lists(r@, self@.agreed),
    {
        entries(&self.agreed)
    }

    /// The seat that answers a machine that cannot catch up: the lowest of the
    /// first `players` seats still in the session, and `me` where none is. It
    /// has to be the same answer on every machine, and the roster is a thing
    /// every machine agrees about.
    pub fn authority(&self, players: u16, me: PlayerId) -> (r: PlayerId)
        ensures
            r == authority_of(self@, players, me),
            any_live(self@, players) ==> is_lowest_live(self@, players, r.0),
    {
        let mut seat: u16 = 0;
        while seat < players
            invariant
                seat <= players,
                forall|s: u16| s < seat ==> #[trigger] self@.agreed.contains_key(s),
            decreases players - seat,
        {
            if !self.agreed.contains_key(&seat) {
                proof {
                    assert(is_lowest_live(self@, players, seat));
                    assert(any_live(self@, players));
                    let c = choose|s: u16| is_lowest_live(self@, players, s);
                    assert(is_lowest_live(self@, players, c));
                    if c < seat {
                        assert(self@.agreed.contains_key(c));
                    }
                    if seat < c {
                        assert(self@.agreed.contains_key(seat));
                    }
                }
                return PlayerId(seat);
            }
            seat = seat + 1;
        }
        proof {
            assert forall|s: u16| s < players implies self@.agreed.contains_key(s) by {
                assert(s < seat);
            }
        }
        me
    }

    /// Records one machine's opinion about when a seat left.
    ///
    /// Answers the agreed tick on the proposal that completes the set, which is
    /// the earliest opinion in it, and nothing every other time, including for
    /// a seat already agreed, because a departure is applied once. A proposal
    /// from a seat that has left is recorded and does not count towards the set.
    pub fn propose(&mut self, seat: PlayerId, from: PlayerId, at: Tick) -> (r: Option<Tick>)
        ensures
            final(self)@ == proposal(old(self)@, seat.0, from.0, at).0,
            r == proposal(old(self)@, seat.0, from.0, at).1,
            r matches Some(t) ==> is_earliest(opinions_after(old(self)@, seat.0, from.0, at), t),
    {
        if self.agreed.contains_key(&seat.0) {
            return None;
        }
        let ghost before = self@;
        let mut opinions = match self.proposed.get(&seat.0) {
            Some(had) => had.clone(),
            None => BTreeMap::new(),
        };
        let keep = match opinions.get(&from.0) {
            Some(had) => had.0 <= at.0,
            None => false,
        };
        if !keep {
            opinions.insert(from.0, at);
        }
        assert(opinions@ =~= opinions_after(before, seat.0, from.0, at));
        let mut missing = false;
        let mut live: u16 = 0;
        while live < self.seats && !missing
            invariant
                self@ == before,
                live <= before.seats,
                !missing ==> forall|l: u16|
                    l < live && l != seat.0 && !before.agreed.contains_key(l) ==> #[trigger] opinions@.contains_key(l),
                missing ==> !complete(before, seat.0, opinions@),
            decreases self.seats - live + (if missing { 0int } else { 1int }),
        {
            if live != seat.0 && !self.agreed.contains_key(&live) && !opinions.contains_key(&live) {
                missing = true;
            } else {
                live = live + 1;
            }
        }
        assert(missing || complete(before, seat.0, opinions@));
        let first = if missing { Tick(0) } else {
            assert(opinions@.contains_key(from.0));
            earliest(&opinions)
        };
        self.proposed.insert(seat.0, opinions);
        assert(self@.proposed =~= before.proposed.insert(seat.0, opinions_after(before, seat.0, from.0, at)));
        if missing {
            assert(self@ =~= proposal(before, seat.0, from.0, at).0);
            return None;
        }
        proof {
            lemma_earliest_is_unique(opinions_after(before, seat.0, from.0, at), first);
        }
        self.agreed.insert(seat.0, first);
        assert(self@.agreed =~= proposal(before, seat.0, from.0, at).0.agreed);
        Some(first)
    }
}

} // verus!
