//! The event multiplexer: merges the signals of a runtime-determined set of
//! independent sources — one for bus membership, a metadata and a volume
//! source per player — into one ordered sequence of tagged events for a
//! single consumer.
//!
//! Every subscription is stamped with the epoch of the rebuild that created
//! it. A signal offered under any other epoch is discarded, so a stale
//! subscription that is still technically alive when a rebuilt multiplexer
//! starts cannot deliver into it.

use vstd::prelude::*;
use crate::names::{has_player_prefix, is_player_name};

verus! {

/// One event of the merged sequence.
#[derive(Clone, Debug)]
pub enum TaggedEvent {
    /// The set of players on the bus changed.
    RosterChanged,
    /// The playback state (metadata or volume) of one player changed.
    StateChanged { identity: String },
}

/// The mathematical value of a [`TaggedEvent`].
pub enum EventView {
    RosterChanged,
    StateChanged(Seq<char>),
}

impl View for TaggedEvent {
    type V = EventView;

    open spec fn view(&self) -> EventView {
        match self {
            TaggedEvent::RosterChanged => EventView::RosterChanged,
            TaggedEvent::StateChanged { identity } => EventView::StateChanged(identity@),
        }
    }
}

impl DeepView for TaggedEvent {
    type V = EventView;

    open spec fn deep_view(&self) -> EventView {
        self.view()
    }
}

/// One underlying source of the multiplexer.
#[derive(Clone, Debug)]
pub enum SourceKind {
    /// Membership signals of the bus itself, filtered to the namespace.
    Roster,
    /// Metadata-changed signals of one player.
    Metadata { identity: String },
    /// Volume-changed signals of one player.
    Volume { identity: String },
}

/// The mathematical value of a [`SourceKind`].
pub enum SourceKindView {
    Roster,
    Metadata(Seq<char>),
    Volume(Seq<char>),
}

impl View for SourceKind {
    type V = SourceKindView;

    open spec fn view(&self) -> SourceKindView {
        match self {
            SourceKind::Roster => SourceKindView::Roster,
            SourceKind::Metadata { identity } => SourceKindView::Metadata(identity@),
            SourceKind::Volume { identity } => SourceKindView::Volume(identity@),
        }
    }
}

impl DeepView for SourceKind {
    type V = SourceKindView;

    open spec fn deep_view(&self) -> SourceKindView {
        self.view()
    }
}

/// The event that a signal of source `k` is tagged with.
pub open spec fn tag_of(k: SourceKindView) -> EventView {
    match k {
        SourceKindView::Roster => EventView::RosterChanged,
        SourceKindView::Metadata(id) => EventView::StateChanged(id),
        SourceKindView::Volume(id) => EventView::StateChanged(id),
    }
}

/// The source registry for one roster: the membership source, then a
/// metadata and a volume source for each member, in roster order.
pub open spec fn sources_for_spec(roster: Seq<Seq<char>>) -> Seq<SourceKindView>
    decreases roster.len(),
{
    if roster.len() == 0 {
        seq![SourceKindView::Roster]
    } else {
        sources_for_spec(roster.drop_last()) + seq![
            SourceKindView::Metadata(roster.last()),
            SourceKindView::Volume(roster.last()),
        ]
    }
}

/// The mathematical value of a [`Multiplexer`].
#[verifier::ext_equal]
pub struct MuxView {
    pub epoch: u64,
    pub sources: Seq<SourceKindView>,
    pub queue: Seq<EventView>,
}

/// Merges an arbitrary, runtime-determined set of sources into one ordered
/// event sequence. Signals arrive through the `offer` methods, stamped with
/// the epoch and the source index their subscription was built with; the
/// consumer drains the merged sequence through [`Multiplexer::next`].
#[derive(Debug)]
pub struct Multiplexer {
    /// The epoch of the rebuild this multiplexer belongs to.
    pub epoch: u64,
    /// The source registry; index `i` is the stamp of source `i`'s signals.
    pub sources: Vec<SourceKind>,
    /// The merged events, in arrival order, not yet consumed.
    pub queue: Vec<TaggedEvent>,
}

impl View for Multiplexer {
    type V = MuxView;

    open spec fn view(&self) -> MuxView {
        MuxView {
            epoch: self.epoch,
            sources: self.sources.deep_view(),
            queue: self.queue.deep_view(),
        }
    }
}

/// The multiplexer after a membership signal reporting that `name` changed
/// owner, offered with stamp (`epoch`, `index`): a `RosterChanged` event
/// joins the queue exactly when the stamp is current, names a membership
/// source, and `name` lies inside the namespace; any other signal is
/// discarded whole.
pub open spec fn offer_name_step(m: MuxView, epoch: u64, index: int, name: Seq<char>) -> MuxView {
    if epoch == m.epoch && 0 <= index < m.sources.len() && m.sources[index] is Roster
        && is_player_name(name) {
        MuxView { queue: m.queue.push(EventView::RosterChanged), ..m }
    } else {
        m
    }
}

/// The multiplexer after a state signal offered with stamp (`epoch`,
/// `index`): the tag of source `index` joins the queue exactly when the
/// stamp is current and names a per-player source; any other signal is
/// discarded whole.
pub open spec fn offer_state_step(m: MuxView, epoch: u64, index: int) -> MuxView {
    if epoch == m.epoch && 0 <= index < m.sources.len() && !(m.sources[index] is Roster) {
        MuxView { queue: m.queue.push(tag_of(m.sources[index])), ..m }
    } else {
        m
    }
}

impl Multiplexer {
    /// Builds the multiplexer for `roster` under `epoch`: the full source
    /// registry and an empty queue — no event of an earlier multiplexer is
    /// carried over.
    pub fn build(epoch: u64, roster: &Vec<String>) -> (m: Multiplexer)
        ensures
            m@.epoch == epoch,
            m@.sources == sources_for_spec(roster.deep_view()),
            m@.queue == Seq::<EventView>::empty(),
    {
        let mut sources: Vec<SourceKind> = Vec::new();
        sources.push(SourceKind::Roster);
        proof {
            assert(sources.deep_view() =~= sources_for_spec(roster.deep_view().take(0)));
        }
        let mut i: usize = 0;
        while i < roster.len()
            invariant
                i <= roster.len(),
                sources.deep_view() == sources_for_spec(roster.deep_view().take(i as int)),
            decreases roster.len() - i,
        {
            sources.push(SourceKind::Metadata { identity: roster[i].clone() });
            sources.push(SourceKind::Volume { identity: roster[i].clone() });
            proof {
                let all = roster.deep_view();
                let cur = all.take(i + 1);
                assert(cur.drop_last() =~= all.take(i as int));
                assert(cur.last() == all[i as int]);
                assert(sources.deep_view() =~= sources_for_spec(cur));
            }
            i += 1;
        }
        proof {
            assert(roster.deep_view().take(roster.len() as int) =~= roster.deep_view());
        }
        let m = Multiplexer { epoch, sources, queue: Vec::new() };
        proof {
            assert(m@.queue =~= Seq::<EventView>::empty());
        }
        m
    }

    /// Offers a membership signal: the bus reported that `name` changed
    /// owner; see [`offer_name_step`].
    pub fn offer_name_change(&mut self, epoch: u64, index: usize, name: &str)
        ensures
            final(self)@ == offer_name_step(old(self)@, epoch, index as int, name@),
    {
        if epoch == self.epoch && index < self.sources.len() {
            let is_membership = match &self.sources[index] {
                SourceKind::Roster => true,
                _ => false,
            };
            if is_membership && has_player_prefix(name) {
                self.queue.push(TaggedEvent::RosterChanged);
            }
        }
        proof {
            assert(self@ =~= offer_name_step(old(self)@, epoch, index as int, name@));
        }
    }

    /// Offers a state signal of the per-player source at `index`; see
    /// [`offer_state_step`].
    pub fn offer_state_change(&mut self, epoch: u64, index: usize)
        ensures
            final(self)@ == offer_state_step(old(self)@, epoch, index as int),
    {
        if epoch == self.epoch && index < self.sources.len() {
            let tagged = match &self.sources[index] {
                SourceKind::Roster => None,
                SourceKind::Metadata { identity } => Some(
                    TaggedEvent::StateChanged { identity: identity.clone() },
                ),
                SourceKind::Volume { identity } => Some(
                    TaggedEvent::StateChanged { identity: identity.clone() },
                ),
            };
            if let Some(e) = tagged {
                self.queue.push(e);
            }
        }
        proof {
            assert(self@ =~= offer_state_step(old(self)@, epoch, index as int));
        }
    }

    /// Hands the consumer the next merged event, in arrival order; nothing
    /// while every source is quiet.
    pub fn next(&mut self) -> (e: Option<TaggedEvent>)
        ensures
            old(self)@.queue.len() == 0 ==> e is None && final(self)@ == old(self)@,
            old(self)@.queue.len() > 0 ==> (e matches Some(ev) && ev@ == old(self)@.queue.first()
                && final(self)@ == (MuxView { queue: old(self)@.queue.drop_first(), ..old(self)@ })),
    {
        if self.queue.len() == 0 {
            proof {
                assert(self@ =~= old(self)@);
            }
            None
        } else {
            let e = self.queue.remove(0);
            proof {
                assert(self@ =~= (MuxView { queue: old(self)@.queue.drop_first(), ..old(self)@ }));
            }
            Some(e)
        }
    }
}

/// One offered signal, at the specification level.
pub ghost enum OfferView {
    NameChange { epoch: u64, index: int, name: Seq<char> },
    StateChange { epoch: u64, index: int },
}

/// The epoch a signal is stamped with.
pub open spec fn offer_epoch(o: OfferView) -> u64 {
    match o {
        OfferView::NameChange { epoch, .. } => epoch,
        OfferView::StateChange { epoch, .. } => epoch,
    }
}

/// The source index a signal is stamped with.
pub open spec fn offer_index(o: OfferView) -> int {
    match o {
        OfferView::NameChange { index, .. } => index,
        OfferView::StateChange { index, .. } => index,
    }
}

/// The multiplexer after the signals of `offers`, offered in order.
pub open spec fn apply_offers(m: MuxView, offers: Seq<OfferView>) -> MuxView
    decreases offers.len(),
{
    if offers.len() == 0 {
        m
    } else {
        let rest = apply_offers(m, offers.drop_last());
        match offers.last() {
            OfferView::NameChange { epoch, index, name } => offer_name_step(
                rest,
                epoch,
                index,
                name,
            ),
            OfferView::StateChange { epoch, index } => offer_state_step(rest, epoch, index),
        }
    }
}

/// Offering signals never changes the registry: epoch and sources stand.
pub proof fn lemma_offers_preserve_registry(m: MuxView, offers: Seq<OfferView>)
    ensures
        apply_offers(m, offers).epoch == m.epoch,
        apply_offers(m, offers).sources == m.sources,
    decreases offers.len(),
{
    if offers.len() > 0 {
        lemma_offers_preserve_registry(m, offers.drop_last());
    }
}

/// No stale delivery: a signal stamped with any epoch but the current one
/// leaves the multiplexer exactly as it was, whatever source it claims to
/// come from and whatever it reports.
pub proof fn lemma_stale_offer_ignored(m: MuxView, o: OfferView)
    requires
        offer_epoch(o) != m.epoch,
    ensures
        apply_offers(m, seq![o]) == m,
{
    let s = seq![o];
    assert(s.drop_last() =~= Seq::<OfferView>::empty());
    assert(apply_offers(m, s.drop_last()) == m);
    assert(s.last() == o);
}

/// A signal that source `offer_index(o)` of `m` can actually emit under the
/// current epoch: well stamped, and carrying what its source's kind asks
/// for.
pub open spec fn offer_accepted(m: MuxView, o: OfferView) -> bool {
    &&& offer_epoch(o) == m.epoch
    &&& 0 <= offer_index(o) < m.sources.len()
    &&& match o {
        OfferView::NameChange { index, name, .. } => m.sources[index] is Roster && is_player_name(
            name,
        ),
        OfferView::StateChange { index, .. } => !(m.sources[index] is Roster),
    }
}

/// The tags of the sources the signals of `offers` come from, in offer
/// order.
pub open spec fn offered_tags(m: MuxView, offers: Seq<OfferView>) -> Seq<EventView> {
    offers.map_values(|o: OfferView| tag_of(m.sources[offer_index(o)]))
}

/// Every accepted signal is delivered: after the signals of `offers`, each
/// well stamped for `m`, the queue has grown by exactly one event per
/// signal, in offer order, each the tag of the source it came from.
pub proof fn lemma_merge_delivers_all(m: MuxView, offers: Seq<OfferView>)
    requires
        forall|j: int| 0 <= j < offers.len() ==> offer_accepted(m, #[trigger] offers[j]),
    ensures
        apply_offers(m, offers).queue == m.queue + offered_tags(m, offers),
    decreases offers.len(),
{
    if offers.len() == 0 {
        assert(m.queue + offered_tags(m, offers) =~= m.queue);
    } else {
        let d = offers.drop_last();
        let o = offers.last();
        assert(forall|j: int| 0 <= j < d.len() ==> #[trigger] d[j] == offers[j]);
        lemma_merge_delivers_all(m, d);
        lemma_offers_preserve_registry(m, d);
        let rest = apply_offers(m, d);
        let t = tag_of(m.sources[offer_index(o)]);
        assert(apply_offers(m, offers).queue == rest.queue.push(t)) by {
            assert(offer_accepted(m, o));
        }
        assert(offered_tags(m, offers) =~= offered_tags(m, d).push(t));
        assert(apply_offers(m, offers).queue =~= m.queue + offered_tags(m, offers));
    }
}

/// A sequence of `n` distinct indices drawn from `0..n` covers them all:
/// as a multiset it equals `0, 1, ..., n - 1`.
proof fn lemma_distinct_indices_cover(p: Seq<int>, n: int)
    requires
        p.no_duplicates(),
        p.len() == n,
        forall|j: int| 0 <= j < p.len() ==> 0 <= #[trigger] p[j] < n,
    ensures
        p.to_multiset() == Seq::new(n as nat, |i: int| i).to_multiset(),
{
    broadcast use vstd::seq_lib::group_to_multiset_ensures;
    broadcast use vstd::set::group_set_axioms;

    let ids = Seq::new(n as nat, |i: int| i);
    let range = vstd::set_lib::set_int_range(0, n);
    p.unique_seq_to_set();
    ids.unique_seq_to_set();
    vstd::set_lib::lemma_int_range(0, n);
    assert(p.to_set().subset_of(range));
    assert forall|x: int| range.contains(x) implies p.to_set().contains(x) by {
        if !p.to_set().contains(x) {
            assert(p.to_set().subset_of(range.remove(x)));
            vstd::set_lib::lemma_len_subset(p.to_set(), range.remove(x));
        }
    }
    assert(p.to_set() =~= range);
    assert forall|x: int| ids.to_set().contains(x) implies range.contains(x) by {
        let j = choose|j: int| 0 <= j < ids.len() && ids[j] == x;
    }
    assert forall|x: int| range.contains(x) implies ids.to_set().contains(x) by {
        assert(ids[x] == x);
        assert(ids.contains(x));
    }
    assert(ids.to_set() =~= range);
    p.lemma_multiset_has_no_duplicates();
    ids.lemma_multiset_has_no_duplicates();
    assert forall|x: int| p.to_multiset().count(x) == ids.to_multiset().count(x) by {
        if p.to_set().contains(x) {
            assert(p.to_multiset().contains(x));
            assert(ids.to_multiset().contains(x));
        } else {
            assert(!p.contains(x) && !ids.contains(x));
            assert(p.to_multiset().count(x) == 0 && ids.to_multiset().count(x) == 0);
        }
    }
    assert(p.to_multiset() =~= ids.to_multiset());
}

/// Mapping one function over two sequences that hold the same values — in
/// any two orders — yields sequences that hold the same images.
proof fn lemma_map_values_permutation<A, B>(p1: Seq<A>, p2: Seq<A>, f: spec_fn(A) -> B)
    requires
        p1.to_multiset() == p2.to_multiset(),
    ensures
        p1.map_values(f).to_multiset() == p2.map_values(f).to_multiset(),
    decreases p1.len(),
{
    broadcast use vstd::seq_lib::group_to_multiset_ensures;
    broadcast use vstd::multiset::group_multiset_axioms;

    if p1.len() == 0 {
        assert(p1.to_multiset().len() == p1.len());
        assert(p2.to_multiset().len() == p2.len());
        assert(p2.len() == 0);
        assert(p1.map_values(f) =~= p2.map_values(f));
    } else {
        let v = p1.last();
        assert(p1.contains(v));
        assert(p2.to_multiset().count(v) > 0);
        assert(p2.contains(v));
        let k = choose|k: int| 0 <= k < p2.len() && p2[k] == v;
        let p1d = p1.drop_last();
        let p2r = p2.remove(k);
        assert(p1d.push(v) =~= p1);
        assert(p1.to_multiset() == p1d.to_multiset().insert(v));
        assert(p2r.to_multiset() == p2.to_multiset().remove(v));
        assert(p1d.to_multiset() =~= p2r.to_multiset()) by {
            assert(forall|x: A|
                p1d.to_multiset().count(x) == #[trigger] p2r.to_multiset().count(x));
        }
        lemma_map_values_permutation(p1d, p2r, f);
        let m1 = p1.map_values(f);
        let m2 = p2.map_values(f);
        assert(m1 =~= p1d.map_values(f).push(f(v)));
        assert(m1.to_multiset() == p1d.map_values(f).to_multiset().insert(f(v)));
        assert(p2r.map_values(f) =~= m2.remove(k));
        assert(m2[k] == f(v));
        assert(m2.remove(k).to_multiset() == m2.to_multiset().remove(f(v)));
        assert(m2.contains(f(v)));
        assert(m2.to_multiset().count(f(v)) > 0);
        assert(m1.to_multiset() =~= m2.to_multiset()) by {
            assert(m1.to_multiset() == m2.to_multiset().remove(f(v)).insert(f(v)));
            assert(forall|x: B|
                m2.to_multiset().remove(f(v)).insert(f(v)).count(x) == #[trigger] m2.to_multiset().count(
                    x,
                ));
        }
    }
}

/// No event loss: starting from an idle multiplexer, when each source emits
/// exactly once — in any order, each signal well stamped — the merged
/// sequence holds exactly one event per source: as many events as sources,
/// the `j`-th tagged to the source that emitted `j`-th, and, taken
/// together, exactly the tags of the sources; nothing is lost and nothing
/// is duplicated.
pub proof fn lemma_no_event_loss(m: MuxView, offers: Seq<OfferView>)
    requires
        m.queue.len() == 0,
        offers.len() == m.sources.len(),
        forall|j: int| 0 <= j < offers.len() ==> offer_accepted(m, #[trigger] offers[j]),
        forall|j1: int, j2: int|
            0 <= j1 < j2 < offers.len() ==> offer_index(#[trigger] offers[j1]) != offer_index(
                #[trigger] offers[j2],
            ),
    ensures
        apply_offers(m, offers).queue.len() == m.sources.len(),
        forall|j: int|
            0 <= j < offers.len() ==> apply_offers(m, offers).queue[j] == tag_of(
                m.sources[offer_index(#[trigger] offers[j])],
            ),
        apply_offers(m, offers).queue.to_multiset() == m.sources.map_values(
            |k: SourceKindView| tag_of(k),
        ).to_multiset(),
{
    lemma_merge_delivers_all(m, offers);
    let delivered = apply_offers(m, offers).queue;
    assert(delivered =~= offered_tags(m, offers));
    let perm = offers.map_values(|o: OfferView| offer_index(o));
    let f = |i: int| tag_of(m.sources[i]);
    assert(delivered =~= perm.map_values(f));
    assert(perm.no_duplicates());
    let n = m.sources.len() as int;
    let ids = Seq::new(n as nat, |i: int| i);
    lemma_distinct_indices_cover(perm, n);
    lemma_map_values_permutation(perm, ids, f);
    assert(ids.map_values(f) =~= m.sources.map_values(|k: SourceKindView| tag_of(k)));
}

/// No stale delivery, over a whole run: after a rebuild, the signals of
/// every pre-rebuild subscription — all stamped with an earlier epoch —
/// deliver nothing, however many there are and in whatever order they
/// arrive: the rebuilt multiplexer still holds exactly the events it held
/// before.
pub proof fn lemma_no_stale_delivery(m: MuxView, offers: Seq<OfferView>)
    requires
        forall|j: int| 0 <= j < offers.len() ==> offer_epoch(#[trigger] offers[j]) != m.epoch,
    ensures
        apply_offers(m, offers) == m,
    decreases offers.len(),
{
    if offers.len() > 0 {
        lemma_no_stale_delivery(m, offers.drop_last());
    }
}

} // verus!
