//! What this machine says about seats leaving, what it makes of what the other
//! machines say, and whose state it answers or adopts when one cannot catch up.
//!
//! None of it is per tick: a peer joins, a peer leaves, a machine falls behind,
//! and each happens out of band of the simulation. The messages and the peer
//! that applies a departure are the program's; each decision is a step here,
//! from this table and one event to the next table and what to do.

use std::collections::BTreeMap;

use vstd::prelude::*;

use crate::net::{
    Departures, DeparturesView, authority_of, complete, earliest_of, entries, is_earliest, lists,
    opinions_after, proposal, sat_add, seat_behind, seat_of,
};
use crate::units::{PeerId, PlayerId, Tick};

verus! {

broadcast use vstd::std_specs::btree::group_btree_axioms;

/// A message about the roster, from one machine to the others.
#[derive(Clone, Copy, Debug, PartialEq, Eq, Hash, Structural)]
pub enum Control {
    /// Seat `from` thinks seat `seat` left on tick `at`.
    Departed { seat: u16, from: u16, at: Tick },
    /// Seat `seat` cannot catch up from actions: it has every seat's action up
    /// to `agreed` and no window still being sent reaches back that far.
    Stuck { seat: u16, agreed: Tick },
}

/// What folding one message in asks of the program.
#[derive(Clone, Copy, Debug, PartialEq, Eq, Hash, Structural)]
pub enum Reply {
    /// The sender is stuck: answer it with a state, if this machine is the
    /// one that answers.
    Answer { seat: PlayerId, agreed: Tick },
    /// An opinion was folded in. `said` is what this machine now says about
    /// the same seat to everybody, where it had said nothing yet; `applied` is
    /// the agreed tick, where this completed the set.
    Folded { said: Option<Tick>, applied: Option<Tick> },
}

/// What this machine said about a seat whose machine it lost.
#[derive(Clone, Copy, Debug, PartialEq, Eq, Hash, Structural)]
pub struct Said {
    /// The seat the lost machine played.
    pub seat: PlayerId,
    /// The tick this machine says it left on, to everybody.
    pub at: Tick,
    /// The agreed tick, where this completed the set.
    pub applied: Option<Tick>,
}

/// Who has said what about seats leaving, and what this machine itself said.
#[derive(Clone, Debug, Default)]
pub struct Agreement {
    /// Every machine's opinions, and what has been agreed.
    departures: Departures,
    /// This machine's own opinion for each seat, kept so that it can be said
    /// again to a machine that arrives late or missed it.
    mine: BTreeMap<u16, Tick>,
}

/// [`Agreement`] as maps.
#[verifier::ext_equal]
pub struct AgreementView {
    pub departures: DeparturesView,
    pub mine: Map<u16, Tick>,
}

impl View for Agreement {
    type V = AgreementView;

    closed spec fn view(&self) -> AgreementView {
        AgreementView { departures: self.departures@, mine: self.mine@ }
    }
}

/// The tick a machine at `now` proposes for a departure it noticed itself:
/// `lead` ticks on, past anything any peer can have confirmed.
pub open spec fn ahead_of(now: Tick, lead: u64) -> Tick {
    Tick(sat_add(now.0 as int, lead as int) as u64)
}

/// What this machine says about `seat` once it has lost the machine playing
/// it: what it said before, or a tick `lead` past `now`.
pub open spec fn noticed_at(v: AgreementView, seat: u16, now: Tick, lead: u64) -> Tick {
    if v.mine.contains_key(seat) { v.mine[seat] } else { ahead_of(now, lead) }
}

/// The table after this machine lost the machine behind `peer`, and what it said.
pub open spec fn noticing(v: AgreementView, peer: PeerId, me: PlayerId, now: Tick, lead: u64) -> (AgreementView, Said) {
    let seat = seat_behind(peer);
    let at = noticed_at(v, seat, now, lead);
    let (departures, applied) = proposal(v.departures, seat, me.0, at);
    (
        AgreementView { departures, mine: v.mine.insert(seat, at) },
        Said { seat: PlayerId(seat), at, applied },
    )
}

/// The table after a message arrived, and what it asks of the program.
///
/// A machine that hears a seat has left before noticing it itself says what it
/// thinks as well, because the set stays incomplete until it does; what it says
/// is never earlier than `lead` past `now`, nor than what it heard. Its own
/// opinion is folded in before the one it heard.
pub open spec fn hearing(v: AgreementView, control: Control, me: PlayerId, now: Tick, lead: u64) -> (AgreementView, Reply) {
    match control {
        Control::Stuck { seat, agreed } => (v, Reply::Answer { seat: PlayerId(seat), agreed }),
        Control::Departed { seat, from, at } => {
            let joins = !v.mine.contains_key(seat) && !v.departures.agreed.contains_key(seat);
            let soon = ahead_of(now, lead);
            let ours = if soon.0 >= at.0 { soon } else { at };
            let (mid, first) = if joins {
                proposal(v.departures, seat, me.0, ours)
            } else {
                (v.departures, None)
            };
            let (last, second) = proposal(mid, seat, from, at);
            (
                AgreementView {
                    departures: last,
                    mine: if joins { v.mine.insert(seat, ours) } else { v.mine },
                },
                Reply::Folded {
                    said: if joins { Some(ours) } else { None },
                    applied: if first is Some { first } else { second },
                },
            )
        },
    }
}

/// One departure handed over with a rescuing state: a fact where it was not
/// agreed here yet, and this machine's own opinion from then on.
pub open spec fn rescue_one(v: AgreementView, seat: u16, at: Tick) -> AgreementView {
    if v.departures.agreed.contains_key(seat) {
        v
    } else {
        AgreementView {
            departures: DeparturesView {
                seats: v.departures.seats,
                proposed: v.departures.proposed,
                agreed: v.departures.agreed.insert(seat, at),
            },
            mine: v.mine.insert(seat, at),
        }
    }
}

/// Every departure handed over with a rescuing state, in the order it came.
pub open spec fn rescue_all(v: AgreementView, departed: Seq<(PlayerId, Tick)>) -> AgreementView
    decreases departed.len(),
{
    if departed.len() == 0 {
        v
    } else {
        let last = departed.last();
        rescue_one(rescue_all(v, departed.drop_last()), last.0.0, last.1)
    }
}

/// Whether offer `i` came from the machine playing seat `seat`.
pub open spec fn offered_by(offers: Seq<(PeerId, Tick)>, i: int, seat: u16) -> bool {
    seat_behind(offers[i].0) == seat
}

impl Agreement {
    /// A table for a session of `seats` seats, with nobody gone and nothing said.
    pub fn new(seats: u16) -> (r: Agreement)
        ensures
            r@.departures.seats == seats,
            r@.departures.proposed == Map::<u16, Map<u16, Tick>>::empty(),
            r@.departures.agreed == Map::<u16, Tick>::empty(),
            r@.mine == Map::<u16, Tick>::empty(),
    {
        Agreement { departures: Departures::new(seats), mine: BTreeMap::new() }
    }

    /// Every machine's opinions, and what has been agreed.
    pub fn departures(&self) -> (r: &Departures)
        ensures
            r@ == self@.departures,
    {
        &self.departures
    }

    /// The machine behind `peer` has gone. This machine says the seat it played
    /// left `lead` ticks past `now` -- or says again what it said before -- and
    /// folds that opinion in.
    pub fn noticed(&mut self, peer: PeerId, me: PlayerId, now: Tick, lead: u64) -> (r: Said)
        ensures
            (final(self)@, r) == noticing(old(self)@, peer, me, now, lead),
    {
        let seat = seat_of(peer);
        let at = match self.mine.get(&seat.0) {
            Some(said) => *said,
            None => now.saturating_add(lead),
        };
        self.mine.insert(seat.0, at);
        let applied = self.departures.propose(seat, me, at);
        let r = Said { seat, at, applied };
        assert(self@ =~= noticing(old(self)@, peer, me, now, lead).0);
        r
    }

    /// Folds in one message another machine sent about the roster.
    pub fn heard(&mut self, control: Control, me: PlayerId, now: Tick, lead: u64) -> (r: Reply)
        ensures
            (final(self)@, r) == hearing(old(self)@, control, me, now, lead),
    {
        match control {
            Control::Stuck { seat, agreed } => Reply::Answer { seat: PlayerId(seat), agreed },
            Control::Departed { seat, from, at } => {
                let ghost before = self@;
                let joins = !self.mine.contains_key(&seat) && self.departures.is_live(PlayerId(seat));
                let mut said: Option<Tick> = None;
                let mut first: Option<Tick> = None;
                if joins {
                    let soon = now.saturating_add(lead);
                    let ours = if soon.0 >= at.0 { soon } else { at };
                    self.mine.insert(seat, ours);
                    said = Some(ours);
                    first = self.departures.propose(PlayerId(seat), me, ours);
                }
                let second = self.departures.propose(PlayerId(seat), PlayerId(from), at);
                let applied = match first {
                    Some(t) => Some(t),
                    None => second,
                };
                let r = Reply::Folded { said, applied };
                assert(self@ =~= hearing(before, control, me, now, lead).0);
                r
            },
        }
    }

    /// What this machine has said about each seat, in seat order: what a
    /// machine that has just become reachable is told, because a proposal it
    /// never heard is a set that never completes.
    pub fn told(&self) -> (r: Vec<(PlayerId, Tick)>)
        ensures
            lists(r@, self@.mine),
    {
        entries(&self.mine)
    }

    /// Whether this machine is the one that answers a stuck machine with its
    /// state: only the authority answers, so that every stuck machine reopens
    /// on the same state.
    pub fn answers(&self, players: u16, me: PlayerId) -> (r: bool)
        ensures
            r == (authority_of(self@.departures, players, me) == me),
    {
        let authority = self.departures.authority(players, me);
        authority.0 == me.0
    }

    /// Which of the states that arrived to adopt, if any: only one the
    /// authority sent, and of those the newest, the last of equals.
    ///
    /// `offers` is each arrival's sender and the tick its state is at.
    pub fn solicited(&self, players: u16, me: PlayerId, offers: &Vec<(PeerId, Tick)>) -> (r: Option<usize>)
        ensures
            ({
                let seat = authority_of(self@.departures, players, me).0;
                match r {
                    None => forall|i: int| 0 <= i < offers@.len() ==> !#[trigger] offered_by(offers@, i, seat),
                    Some(i) => {
                        &&& i < offers@.len()
                        &&& offered_by(offers@, i as int, seat)
                        &&& forall|j: int| 0 <= j < offers@.len() && #[trigger] offered_by(offers@, j, seat)
                            ==> offers@[j].1.0 <= offers@[i as int].1.0
                        &&& forall|j: int| i < j < offers@.len() && #[trigger] offered_by(offers@, j, seat)
                            ==> offers@[j].1.0 < offers@[i as int].1.0
                    },
                }
            }),
    {
        let authority = self.departures.authority(players, me);
        let ghost seat = authority.0;
        let mut best: Option<usize> = None;
        let mut i: usize = 0;
        while i < offers.len()
            invariant
                i <= offers@.len(),
                seat == authority_of(self@.departures, players, me).0,
                authority.0 == seat,
                match best {
                    None => forall|j: int| 0 <= j < i ==> !#[trigger] offered_by(offers@, j, seat),
                    Some(b) => {
                        &&& b < i
                        &&& offered_by(offers@, b as int, seat)
                        &&& forall|j: int| 0 <= j < i && #[trigger] offered_by(offers@, j, seat)
                            ==> offers@[j].1.0 <= offers@[b as int].1.0
                        &&& forall|j: int| b < j < i && #[trigger] offered_by(offers@, j, seat)
                            ==> offers@[j].1.0 < offers@[b as int].1.0
                    },
                },
            decreases offers@.len() - i,
        {
            let (from, at) = offers[i];
            let by = seat_of(from);
            if by.0 == authority.0 {
                assert(offered_by(offers@, i as int, seat));
                best = match best {
                    None => Some(i),
                    Some(b) => if at.0 >= offers[b].1.0 { Some(i) } else { Some(b) },
                };
            } else {
                assert(!offered_by(offers@, i as int, seat));
            }
            i = i + 1;
        }
        best
    }

    /// Takes the departures that came with a rescuing state: each one not
    /// agreed here yet is a fact, decided by machines this one was cut off
    /// from, and becomes what this machine says about that seat too.
    pub fn rescued(&mut self, departed: &Vec<(PlayerId, Tick)>)
        ensures
            final(self)@ == rescue_all(old(self)@, departed@),
    {
        let ghost start = self@;
        let mut i: usize = 0;
        while i < departed.len()
            invariant
                i <= departed@.len(),
                self@ == rescue_all(start, departed@.take(i as int)),
            decreases departed@.len() - i,
        {
            let (seat, at) = departed[i];
            let ghost before = self@;
            if self.departures.is_live(seat) {
                self.departures.adopt(seat, at);
                self.mine.insert(seat.0, at);
            }
            proof {
                let s = departed@.take(i + 1);
                assert(s.drop_last() =~= departed@.take(i as int));
                assert(s.last() == departed@[i as int]);
                assert(self@ =~= rescue_one(before, seat.0, at));
            }
            i = i + 1;
        }
        assert(departed@.take(departed@.len() as int) =~= departed@);
    }
}

/// Folds `ops`, each a seat and its opinion about `seat` leaving, into the
/// table in the order they arrive, keeping the first tick any of them agreed.
pub open spec fn proposals(v: DeparturesView, seat: u16, ops: Seq<(u16, Tick)>) -> (DeparturesView, Option<Tick>)
    decreases ops.len(),
{
    if ops.len() == 0 {
        (v, None)
    } else {
        let (mid, first) = proposals(v, seat, ops.drop_last());
        let (last, now) = proposal(mid, seat, ops.last().0, ops.last().1);
        (last, if first is Some { first } else { now })
    }
}

/// Whether seat `s` is still in the session and is not the one leaving.
pub open spec fn live_other(v: DeparturesView, seat: u16, s: u16) -> bool {
    s < v.seats && s != seat && !v.agreed.contains_key(s)
}

/// Whether `s` is the seat of one of `ops`.
pub open spec fn says(ops: Seq<(u16, Tick)>, s: u16) -> bool {
    exists|i: int| 0 <= i < ops.len() && ops[i].0 == s
}

/// Whether each seat in `ops` says one tick, however often it is heard.
pub open spec fn consistent(ops: Seq<(u16, Tick)>) -> bool {
    forall|i: int, j: int|
        #![trigger ops[i], ops[j]]
        0 <= i < ops.len() && 0 <= j < ops.len() && ops[i].0 == ops[j].0 ==> ops[i].1 == ops[j].1
}

/// Whether every seat still in the session, other than the one leaving, has
/// spoken in `ops`.
pub open spec fn covers(v: DeparturesView, seat: u16, ops: Seq<(u16, Tick)>) -> bool {
    forall|s: u16| live_other(v, seat, s) ==> #[trigger] says(ops, s)
}

/// Whether `ops` is an opinion from each seat still in the session other than
/// the one leaving, each seat saying one tick however often it is heard, and
/// from nobody else.
pub open spec fn one_each(v: DeparturesView, seat: u16, ops: Seq<(u16, Tick)>) -> bool {
    &&& consistent(ops)
    &&& forall|i: int| 0 <= i < ops.len() ==> live_other(v, seat, #[trigger] ops[i].0)
    &&& covers(v, seat, ops)
}

/// The opinions in `ops` as a table by seat.
pub open spec fn opinions_of(ops: Seq<(u16, Tick)>) -> Map<u16, Tick>
    decreases ops.len(),
{
    if ops.len() == 0 {
        Map::empty()
    } else {
        opinions_of(ops.drop_last()).insert(ops.last().0, ops.last().1)
    }
}

/// The opinions before the first arrives: none, whether or not the table has
/// an entry for the seat.
pub open spec fn had(v: DeparturesView, seat: u16) -> Map<u16, Tick> {
    if v.proposed.contains_key(seat) { v.proposed[seat] } else { Map::empty() }
}

/// A prefix of a consistent sequence is consistent.
proof fn lemma_prefix_is_consistent(ops: Seq<(u16, Tick)>, n: int)
    requires
        consistent(ops),
        0 <= n <= ops.len(),
    ensures
        consistent(ops.take(n)),
{
    let pre = ops.take(n);
    assert forall|i: int, j: int|
        #![trigger pre[i], pre[j]]
        0 <= i < pre.len() && 0 <= j < pre.len() && pre[i].0 == pre[j].0 implies pre[i].1 == pre[j].1 by {
        assert(pre[i] == ops[i] && pre[j] == ops[j]);
    }
}

/// The table of consistent `ops` holds each seat that spoke, with what it said.
proof fn lemma_opinions_of(ops: Seq<(u16, Tick)>)
    requires
        consistent(ops),
    ensures
        forall|k: u16| #[trigger] opinions_of(ops).contains_key(k) <==> says(ops, k),
        forall|i: int| 0 <= i < ops.len() ==> opinions_of(ops)[#[trigger] ops[i].0] == ops[i].1,
    decreases ops.len(),
{
    if ops.len() > 0 {
        let init = ops.drop_last();
        let last = ops.last();
        assert(init =~= ops.take(ops.len() - 1));
        lemma_prefix_is_consistent(ops, ops.len() - 1);
        lemma_opinions_of(init);
        assert(opinions_of(ops) == opinions_of(init).insert(last.0, last.1));
        assert forall|k: u16| #[trigger] opinions_of(ops).contains_key(k) <==> says(ops, k) by {
            if says(ops, k) {
                let i = choose|i: int| 0 <= i < ops.len() && ops[i].0 == k;
                if i < ops.len() - 1 {
                    assert(init[i].0 == k);
                    assert(says(init, k));
                }
            }
            if opinions_of(ops).contains_key(k) {
                if k == last.0 {
                    assert(ops[ops.len() - 1].0 == k);
                } else {
                    assert(opinions_of(init).contains_key(k));
                    assert(says(init, k));
                    let i = choose|i: int| 0 <= i < init.len() && init[i].0 == k;
                    assert(ops[i].0 == k);
                }
            }
        }
        assert forall|i: int| 0 <= i < ops.len() implies opinions_of(ops)[#[trigger] ops[i].0] == ops[i].1 by {
            if ops[i].0 == last.0 {
                assert(ops[ops.len() - 1] == last);
            } else {
                assert(init[i] == ops[i]);
            }
        }
    }
}

/// A table of one or more consistent opinions has an earliest one.
proof fn lemma_earliest_exists(ops: Seq<(u16, Tick)>)
    requires
        consistent(ops),
        ops.len() > 0,
    ensures
        is_earliest(opinions_of(ops), earliest_of(opinions_of(ops))),
    decreases ops.len(),
{
    let m = opinions_of(ops);
    let last = ops.last();
    let init = ops.drop_last();
    assert(m == opinions_of(init).insert(last.0, last.1));
    if init.len() == 0 {
        assert(opinions_of(init) == Map::<u16, Tick>::empty());
        assert(m =~= Map::<u16, Tick>::empty().insert(last.0, last.1));
        assert(is_earliest(m, last.1));
    } else {
        assert(init =~= ops.take(ops.len() - 1));
        lemma_prefix_is_consistent(ops, ops.len() - 1);
        lemma_earliest_exists(init);
        lemma_opinions_of(init);
        let before = opinions_of(init);
        let t = earliest_of(before);
        let k = choose|k: u16| #[trigger] before.contains_key(k) && before[k] == t;
        let best = if last.1.0 < t.0 { last.1 } else { t };
        if k == last.0 {
            assert(says(init, k));
            let i = choose|i: int| 0 <= i < init.len() && init[i].0 == k;
            assert(init[i] == ops[i]);
            assert(ops[ops.len() - 1] == last);
            assert(before[init[i].0] == init[i].1);
            assert(t == last.1);
            assert(m.contains_key(last.0) && m[last.0] == best);
        } else {
            assert(m.contains_key(k) && m[k] == t);
            assert(m.contains_key(last.0) && m[last.0] == last.1);
        }
        assert forall|j: u16| #[trigger] m.contains_key(j) implies best.0 <= m[j].0 by {
            if j != last.0 {
                assert(before.contains_key(j));
            }
        }
        assert(is_earliest(m, best));
    }
}

/// While some live seat has not spoken nothing is agreed and what has been
/// said is on the table; once every one has, the departure is agreed on the
/// earliest opinion of all of them, and nothing said afterwards changes it.
proof fn lemma_proposals(v: DeparturesView, seat: u16, ops: Seq<(u16, Tick)>, n: int)
    requires
        !v.agreed.contains_key(seat),
        !v.proposed.contains_key(seat),
        one_each(v, seat, ops),
        ops.len() > 0,
        0 <= n <= ops.len(),
    ensures
        !covers(v, seat, ops.take(n)) ==> {
            let (mid, first) = proposals(v, seat, ops.take(n));
            &&& first is None
            &&& mid.seats == v.seats
            &&& mid.agreed == v.agreed
            &&& had(mid, seat) == opinions_of(ops.take(n))
        },
        covers(v, seat, ops.take(n)) ==> {
            let (mid, first) = proposals(v, seat, ops.take(n));
            &&& first == Some(earliest_of(opinions_of(ops)))
            &&& mid.agreed.contains_key(seat)
        },
    decreases n,
{
    if n == 0 {
        assert(live_other(v, seat, ops[0].0));
        assert(!says(ops.take(0), ops[0].0));
        assert(opinions_of(ops.take(0)) =~= Map::<u16, Tick>::empty());
    } else {
        lemma_proposals(v, seat, ops, n - 1);
        let pre = ops.take(n);
        let before = ops.take(n - 1);
        assert(pre.drop_last() =~= before);
        assert(pre.last() == ops[n - 1]);
        let (mid, first) = proposals(v, seat, before);
        let from = ops[n - 1].0;
        let at = ops[n - 1].1;
        if covers(v, seat, before) {
            assert forall|s: u16| live_other(v, seat, s) implies #[trigger] says(pre, s) by {
                assert(says(before, s));
                let i = choose|i: int| 0 <= i < before.len() && before[i].0 == s;
                assert(pre[i] == before[i]);
            }
        } else {
            lemma_prefix_is_consistent(ops, n - 1);
            lemma_prefix_is_consistent(ops, n);
            lemma_opinions_of(before);
            lemma_opinions_of(pre);
            let opinions = opinions_after(mid, seat, from, at);
            if had(mid, seat).contains_key(from) {
                assert(says(before, from));
                let i = choose|i: int| 0 <= i < before.len() && before[i].0 == from;
                assert(before[i] == ops[i]);
                assert(had(mid, seat)[before[i].0] == before[i].1);
                assert(ops[i].1 == ops[n - 1].1);
            }
            assert(opinions_of(pre) == opinions_of(before).insert(from, at));
            assert(opinions =~= opinions_of(pre));
            assert(complete(mid, seat, opinions) == covers(v, seat, pre)) by {
                if covers(v, seat, pre) {
                    assert forall|live: u16|
                        live < mid.seats && live != seat && !mid.agreed.contains_key(live)
                        implies #[trigger] opinions.contains_key(live) by {
                        assert(live_other(v, seat, live));
                        assert(says(pre, live));
                    }
                }
                if complete(mid, seat, opinions) {
                    assert forall|s: u16| live_other(v, seat, s) implies #[trigger] says(pre, s) by {
                        assert(opinions.contains_key(s));
                    }
                }
            }
            if covers(v, seat, pre) {
                lemma_opinions_of(ops);
                assert forall|k: u16| #[trigger] opinions_of(pre).contains_key(k) <==> opinions_of(ops).contains_key(k) by {
                    if says(pre, k) {
                        let i = choose|i: int| 0 <= i < pre.len() && pre[i].0 == k;
                        assert(ops[i].0 == k);
                    }
                    if says(ops, k) {
                        let i = choose|i: int| 0 <= i < ops.len() && ops[i].0 == k;
                        assert(live_other(v, seat, ops[i].0));
                        assert(says(pre, k));
                    }
                }
                assert forall|k: u16| #[trigger] opinions_of(pre).contains_key(k) implies opinions_of(pre)[k] == opinions_of(ops)[k] by {
                    let i = choose|i: int| 0 <= i < pre.len() && pre[i].0 == k;
                    assert(pre[i] == ops[i]);
                    assert(opinions_of(pre)[pre[i].0] == pre[i].1);
                    assert(opinions_of(ops)[ops[i].0] == ops[i].1);
                }
                assert(opinions_of(pre) =~= opinions_of(ops));
            } else {
                assert(proposals(v, seat, pre).0.proposed =~= mid.proposed.insert(seat, opinions));
            }
        }
    }
}

/// A departure is agreed on the earliest opinion of the seats still in the
/// session, so every machine that heard the same opinions agrees on the same
/// tick, whatever order they arrived in and however often each was repeated.
pub proof fn lemma_agreement_ignores_order(
    v: DeparturesView,
    seat: u16,
    ops: Seq<(u16, Tick)>,
    reordered: Seq<(u16, Tick)>,
)
    requires
        !v.agreed.contains_key(seat),
        !v.proposed.contains_key(seat),
        one_each(v, seat, ops),
        one_each(v, seat, reordered),
        forall|p: (u16, Tick)| ops.contains(p) <==> reordered.contains(p),
        ops.len() > 0,
    ensures
        proposals(v, seat, ops).1 == proposals(v, seat, reordered).1,
        proposals(v, seat, ops).1 matches Some(t) && is_earliest(opinions_of(ops), t),
{
    lemma_opinions_of(ops);
    lemma_opinions_of(reordered);
    assert forall|k: u16| #[trigger] opinions_of(ops).contains_key(k) <==> opinions_of(reordered).contains_key(k) by {
        if says(ops, k) {
            let i = choose|i: int| 0 <= i < ops.len() && ops[i].0 == k;
            assert(ops.contains(ops[i]));
            let j = choose|j: int| 0 <= j < reordered.len() && reordered[j] == ops[i];
            assert(reordered[j].0 == k);
        }
        if says(reordered, k) {
            let j = choose|j: int| 0 <= j < reordered.len() && reordered[j].0 == k;
            assert(reordered.contains(reordered[j]));
            let i = choose|i: int| 0 <= i < ops.len() && ops[i] == reordered[j];
            assert(ops[i].0 == k);
        }
    }
    assert forall|k: u16| #[trigger] opinions_of(ops).contains_key(k) implies opinions_of(ops)[k] == opinions_of(reordered)[k] by {
        let i = choose|i: int| 0 <= i < ops.len() && ops[i].0 == k;
        assert(ops.contains(ops[i]));
        let j = choose|j: int| 0 <= j < reordered.len() && reordered[j] == ops[i];
        assert(opinions_of(ops)[ops[i].0] == ops[i].1);
        assert(opinions_of(reordered)[reordered[j].0] == reordered[j].1);
    }
    assert(opinions_of(ops) =~= opinions_of(reordered));
    assert(reordered.len() > 0) by {
        assert(ops.contains(ops[0]));
    }
    lemma_proposals(v, seat, ops, ops.len() as int);
    lemma_proposals(v, seat, reordered, reordered.len() as int);
    assert(ops.take(ops.len() as int) =~= ops);
    assert(reordered.take(reordered.len() as int) =~= reordered);
    lemma_earliest_exists(ops);
}

} // verus!
