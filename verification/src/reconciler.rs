//! The roster reconciler: owns the top-level state — roster, handles,
//! multiplexer, snapshots — keeps it consistent with the live bus
//! population, and translates merged events into snapshot recomputation.
//!
//! It alternates between two logical states: Stable, awaiting the next
//! merged event, and Rebuilding, entered at startup and on every
//! `RosterChanged` event. A rebuild enumerates the bus (outside this
//! crate), filters the enumeration through [`crate::names::plan_roster`],
//! probes each candidate, and hands the outcomes to
//! [`Reconciler::apply_rebuild`], which installs the surviving identities,
//! fresh handles, and the next epoch's multiplexer in one step.

use vstd::prelude::*;
use crate::mux::{
    apply_offers, lemma_no_stale_delivery, offer_epoch, offer_name_step, offer_state_step,
    sources_for_spec, EventView, Multiplexer, MuxView, OfferView, TaggedEvent,
};
use crate::names::str_equal;
use crate::snapshot::{PlayerData, PlayerDataView};

verus! {

/// A capability bound to one discovered player identity and one rebuild
/// epoch. Its two change subscriptions (metadata, volume) live exactly as
/// long as the handle: the handle set is replaced wholesale on rebuild, and
/// replacing it releases every subscription of the prior epoch.
#[derive(Clone, Debug)]
pub struct PlayerHandle {
    /// The identity this handle is bound to.
    pub identity: String,
    /// The rebuild epoch its subscriptions were built in.
    pub epoch: u64,
}

/// The mathematical value of a [`PlayerHandle`].
pub struct PlayerHandleView {
    pub identity: Seq<char>,
    pub epoch: u64,
}

impl View for PlayerHandle {
    type V = PlayerHandleView;

    open spec fn view(&self) -> PlayerHandleView {
        PlayerHandleView { identity: self.identity@, epoch: self.epoch }
    }
}

impl DeepView for PlayerHandle {
    type V = PlayerHandleView;

    open spec fn deep_view(&self) -> PlayerHandleView {
        self.view()
    }
}

/// The mathematical value of a [`Reconciler`].
#[verifier::ext_equal]
pub struct ReconcilerView {
    pub epoch: u64,
    pub roster: Seq<Seq<char>>,
    pub handles: Seq<PlayerHandleView>,
    pub mux: MuxView,
    pub data: Seq<PlayerDataView>,
}

/// The top-level state of the watch loop.
#[derive(Debug)]
pub struct Reconciler {
    /// How many rebuilds have completed.
    pub epoch: u64,
    /// The identities currently tracked, in enumeration order.
    pub roster: Vec<String>,
    /// One handle per roster member, same order.
    pub handles: Vec<PlayerHandle>,
    /// The multiplexer of the current epoch.
    pub mux: Multiplexer,
    /// One display snapshot per roster member, same order.
    pub data: Vec<PlayerData>,
}

impl View for Reconciler {
    type V = ReconcilerView;

    open spec fn view(&self) -> ReconcilerView {
        ReconcilerView {
            epoch: self.epoch,
            roster: self.roster.deep_view(),
            handles: self.handles.deep_view(),
            mux: self.mux@,
            data: self.data.deep_view(),
        }
    }
}

/// The members of `plan` whose probe succeeded, in order.
pub open spec fn survivors_spec(plan: Seq<Seq<char>>, ok: Seq<bool>) -> Seq<Seq<char>>
    decreases plan.len(),
{
    if plan.len() == 0 {
        Seq::empty()
    } else {
        let rest = survivors_spec(plan.drop_last(), ok.drop_last());
        if ok[plan.len() - 1] {
            rest.push(plan.last())
        } else {
            rest
        }
    }
}

impl Reconciler {
    /// The reconciler's invariant, re-established by every method: once a
    /// reconciliation completes, every handle corresponds to exactly one
    /// roster member and every roster member has exactly one handle, each
    /// bound to the current epoch; one snapshot stands per member; and the
    /// multiplexer is the current epoch's, its registry derived from the
    /// roster.
    pub open spec fn wf(self) -> bool {
        &&& self@.handles.len() == self@.roster.len()
        &&& forall|i: int|
            0 <= i < self@.roster.len() ==> (#[trigger] self@.handles[i]).identity
                == self@.roster[i] && self@.handles[i].epoch == self@.epoch
        &&& self@.data.len() == self@.roster.len()
        &&& forall|i: int|
            0 <= i < self@.roster.len() ==> (#[trigger] self@.data[i]).service_name
                == self@.roster[i]
        &&& self@.mux.epoch == self@.epoch
        &&& self@.mux.sources == sources_for_spec(self@.roster)
    }

    /// The reconciler at startup: epoch 0, nothing tracked yet, an idle
    /// multiplexer for the empty roster. Startup begins with a rebuild: the
    /// first enumeration feeds [`Reconciler::apply_rebuild`] before any
    /// event is consumed.
    pub fn new() -> (r: Reconciler)
        ensures
            r.wf(),
            r@.epoch == 0,
            r@.roster == Seq::<Seq<char>>::empty(),
            r@.data == Seq::<PlayerDataView>::empty(),
            r@.mux.queue == Seq::<EventView>::empty(),
    {
        let empty: Vec<String> = Vec::new();
        let r = Reconciler {
            epoch: 0,
            roster: Vec::new(),
            handles: Vec::new(),
            mux: Multiplexer::build(0, &empty),
            data: Vec::new(),
        };
        proof {
            assert(r@.roster =~= Seq::<Seq<char>>::empty());
            assert(r@.handles =~= Seq::<PlayerHandleView>::empty());
            assert(r@.data =~= Seq::<PlayerDataView>::empty());
        }
        r
    }

    /// Completes one Rebuilding pass. `plan` is the enumeration already
    /// filtered to the namespace; `ok[i]` reports whether the probe for
    /// `plan[i]` — constructing its handle and two subscriptions —
    /// succeeded, a vanished player being simply omitted. Installs exactly
    /// the survivors, one fresh handle each, blank snapshots awaiting the
    /// full-batch recompute, and the next epoch's multiplexer with an empty
    /// queue: no event of the prior epoch is carried over, and the prior
    /// epoch's subscriptions can no longer deliver.
    pub fn apply_rebuild(&mut self, plan: &Vec<String>, ok: &Vec<bool>)
        requires
            ok@.len() == plan@.len(),
            old(self)@.epoch < u64::MAX,
        ensures
            final(self).wf(),
            final(self)@.epoch == old(self)@.epoch + 1,
            final(self)@.roster == survivors_spec(plan.deep_view(), ok@),
            final(self)@.mux.queue == Seq::<EventView>::empty(),
            forall|i: int|
                0 <= i < final(self)@.data.len() ==> (#[trigger] final(self)@.data[i]) == (
                PlayerDataView {
                    service_name: final(self)@.roster[i],
                    title: None,
                    volume: None,
                }),
            rebuild_post(final(self)@, plan.deep_view(), ok@),
    {
        let new_epoch = self.epoch + 1;
        let mut roster: Vec<String> = Vec::new();
        let mut handles: Vec<PlayerHandle> = Vec::new();
        let mut data: Vec<PlayerData> = Vec::new();
        let mut i: usize = 0;
        proof {
            assert(roster.deep_view() =~= survivors_spec(
                plan.deep_view().take(0),
                ok@.take(0),
            ));
        }
        while i < plan.len()
            invariant
                i <= plan.len(),
                ok@.len() == plan@.len(),
                roster.deep_view() == survivors_spec(plan.deep_view().take(i as int), ok@.take(i as int)),
                handles.deep_view().len() == roster.deep_view().len(),
                forall|j: int|
                    0 <= j < roster.deep_view().len() ==> (#[trigger] handles.deep_view()[j]).identity
                        == roster.deep_view()[j] && handles.deep_view()[j].epoch == new_epoch,
                data.deep_view().len() == roster.deep_view().len(),
                forall|j: int|
                    0 <= j < roster.deep_view().len() ==> (#[trigger] data.deep_view()[j]) == (
                    PlayerDataView {
                        service_name: roster.deep_view()[j],
                        title: None,
                        volume: None,
                    }),
            decreases plan.len() - i,
        {
            let ghost prev_r = roster.deep_view();
            let ghost prev_h = handles.deep_view();
            let ghost prev_d = data.deep_view();
            if ok[i] {
                roster.push(plan[i].clone());
                handles.push(PlayerHandle { identity: plan[i].clone(), epoch: new_epoch });
                data.push(
                    PlayerData { service_name: plan[i].clone(), title: None, volume: None },
                );
                proof {
                    let id = plan.deep_view()[i as int];
                    assert(roster.deep_view() =~= prev_r.push(id));
                    assert(handles.deep_view() =~= prev_h.push(
                        PlayerHandleView { identity: id, epoch: new_epoch },
                    ));
                    assert(data.deep_view() =~= prev_d.push(
                        PlayerDataView { service_name: id, title: None, volume: None },
                    ));
                }
            }
            proof {
                let pl = plan.deep_view();
                let cur = pl.take(i + 1);
                let curok = ok@.take(i + 1);
                assert(cur.drop_last() =~= pl.take(i as int));
                assert(curok.drop_last() =~= ok@.take(i as int));
                assert(cur.last() == pl[i as int]);
                assert(roster.deep_view() =~= survivors_spec(cur, curok));
            }
            i += 1;
        }
        proof {
            assert(plan.deep_view().take(plan@.len() as int) =~= plan.deep_view());
            assert(ok@.take(ok@.len() as int) =~= ok@);
        }
        let mux = Multiplexer::build(new_epoch, &roster);
        self.epoch = new_epoch;
        self.roster = roster;
        self.handles = handles;
        self.mux = mux;
        self.data = data;
    }

    /// The full-batch snapshot recompute that enters the new Stable state:
    /// `titles[i]` and `volumes[i]` are the read outcomes for roster member
    /// `i`, an absent entry standing for a failed or unusable read — an
    /// unreachable player keeps its place and shows as having no data.
    pub fn refresh_all(&mut self, titles: &Vec<Option<String>>, volumes: &Vec<Option<String>>)
        requires
            old(self).wf(),
            titles@.len() == old(self)@.roster.len(),
            volumes@.len() == old(self)@.roster.len(),
        ensures
            final(self).wf(),
            final(self)@.epoch == old(self)@.epoch,
            final(self)@.roster == old(self)@.roster,
            final(self)@.handles == old(self)@.handles,
            final(self)@.mux == old(self)@.mux,
            final(self)@.data.len() == old(self)@.roster.len(),
            forall|i: int|
                0 <= i < final(self)@.data.len() ==> (#[trigger] final(self)@.data[i]) == (
                PlayerDataView {
                    service_name: old(self)@.roster[i],
                    title: titles.deep_view()[i],
                    volume: volumes.deep_view()[i],
                }),
    {
        let mut data: Vec<PlayerData> = Vec::new();
        let mut i: usize = 0;
        while i < self.roster.len()
            invariant
                old(self).wf(),
                *self == *old(self),
                i <= self.roster.len(),
                titles@.len() == self@.roster.len(),
                volumes@.len() == self@.roster.len(),
                data.deep_view().len() == i,
                forall|j: int|
                    0 <= j < i ==> (#[trigger] data.deep_view()[j]) == (PlayerDataView {
                        service_name: self@.roster[j],
                        title: titles.deep_view()[j],
                        volume: volumes.deep_view()[j],
                    }),
            decreases self.roster.len() - i,
        {
            let ghost prev_d = data.deep_view();
            data.push(
                PlayerData {
                    service_name: self.roster[i].clone(),
                    title: clone_opt_string(&titles[i]),
                    volume: clone_opt_string(&volumes[i]),
                },
            );
            proof {
                assert(data.deep_view() =~= prev_d.push(
                    PlayerDataView {
                        service_name: self@.roster[i as int],
                        title: titles.deep_view()[i as int],
                        volume: volumes.deep_view()[i as int],
                    },
                ));
            }
            i += 1;
        }
        self.data = data;
    }

    /// The incremental recompute for one `StateChanged` event: replaces the
    /// snapshot of `identity` with one built from its fresh reads, and
    /// touches no other — every other player's snapshot is left as it was.
    pub fn refresh_one(&mut self, identity: &str, title: Option<String>, volume: Option<String>)
        requires
            old(self).wf(),
        ensures
            final(self).wf(),
            final(self)@.epoch == old(self)@.epoch,
            final(self)@.roster == old(self)@.roster,
            final(self)@.handles == old(self)@.handles,
            final(self)@.mux == old(self)@.mux,
            final(self)@.data.len() == old(self)@.data.len(),
            forall|i: int|
                0 <= i < final(self)@.data.len() && old(self)@.roster[i] == identity@
                    ==> (#[trigger] final(self)@.data[i]) == (PlayerDataView {
                    service_name: old(self)@.roster[i],
                    title: title.deep_view(),
                    volume: volume.deep_view(),
                }),
            forall|i: int|
                0 <= i < final(self)@.data.len() && old(self)@.roster[i] != identity@
                    ==> (#[trigger] final(self)@.data[i]) == old(self)@.data[i],
    {
        let mut i: usize = 0;
        while i < self.data.len()
            invariant
                old(self).wf(),
                i <= self.data.len(),
                self@.epoch == old(self)@.epoch,
                self@.roster == old(self)@.roster,
                self@.handles == old(self)@.handles,
                self@.mux == old(self)@.mux,
                self@.data.len() == old(self)@.data.len(),
                forall|j: int|
                    i <= j < self@.data.len() ==> (#[trigger] self@.data[j]) == old(self)@.data[j],
                forall|j: int|
                    0 <= j < i && old(self)@.roster[j] == identity@ ==> (#[trigger] self@.data[j])
                        == (PlayerDataView {
                        service_name: old(self)@.roster[j],
                        title: title.deep_view(),
                        volume: volume.deep_view(),
                    }),
                forall|j: int|
                    0 <= j < i && old(self)@.roster[j] != identity@ ==> (#[trigger] self@.data[j])
                        == old(self)@.data[j],
            decreases self.data.len() - i,
        {
            let ghost prev_d = self@.data;
            if str_equal(self.roster[i].as_str(), identity) {
                let fresh = PlayerData {
                    service_name: self.roster[i].clone(),
                    title: clone_opt_string(&title),
                    volume: clone_opt_string(&volume),
                };
                self.data.set(i, fresh);
                proof {
                    assert(self@.data =~= prev_d.update(
                        i as int,
                        PlayerDataView {
                            service_name: old(self)@.roster[i as int],
                            title: title.deep_view(),
                            volume: volume.deep_view(),
                        },
                    ));
                }
            }
            i += 1;
        }
    }

    /// Renders the display block: one line per tracked player, in roster
    /// order. An empty roster yields no lines.
    pub fn render_lines(&self) -> (lines: Vec<String>)
        ensures
            lines.deep_view().len() == self@.data.len(),
            forall|i: int|
                0 <= i < self@.data.len() ==> lines.deep_view()[i]
                    == crate::snapshot::render_spec(#[trigger] self@.data[i]),
    {
        let mut lines: Vec<String> = Vec::new();
        let mut i: usize = 0;
        while i < self.data.len()
            invariant
                i <= self.data.len(),
                lines.deep_view().len() == i,
                forall|j: int|
                    0 <= j < i ==> lines.deep_view()[j] == crate::snapshot::render_spec(
                        #[trigger] self@.data[j],
                    ),
            decreases self.data.len() - i,
        {
            lines.push(self.data[i].render());
            i += 1;
        }
        lines
    }

    /// Offers a membership signal to the current multiplexer; the registry
    /// and the rest of the state stand, so the invariant survives.
    pub fn offer_name_change(&mut self, epoch: u64, index: usize, name: &str)
        requires
            old(self).wf(),
        ensures
            final(self).wf(),
            final(self)@.mux == offer_name_step(old(self)@.mux, epoch, index as int, name@),
            final(self)@.epoch == old(self)@.epoch,
            final(self)@.roster == old(self)@.roster,
            final(self)@.handles == old(self)@.handles,
            final(self)@.data == old(self)@.data,
    {
        self.mux.offer_name_change(epoch, index, name);
    }

    /// Offers a state signal to the current multiplexer; the registry and
    /// the rest of the state stand, so the invariant survives.
    pub fn offer_state_change(&mut self, epoch: u64, index: usize)
        requires
            old(self).wf(),
        ensures
            final(self).wf(),
            final(self)@.mux == offer_state_step(old(self)@.mux, epoch, index as int),
            final(self)@.epoch == old(self)@.epoch,
            final(self)@.roster == old(self)@.roster,
            final(self)@.handles == old(self)@.handles,
            final(self)@.data == old(self)@.data,
    {
        self.mux.offer_state_change(epoch, index);
    }

    /// Takes the next merged event for the consumer loop, in arrival order.
    pub fn next_event(&mut self) -> (e: Option<TaggedEvent>)
        requires
            old(self).wf(),
        ensures
            final(self).wf(),
            final(self)@.epoch == old(self)@.epoch,
            final(self)@.roster == old(self)@.roster,
            final(self)@.handles == old(self)@.handles,
            final(self)@.data == old(self)@.data,
            old(self)@.mux.queue.len() == 0 ==> e is None && final(self)@.mux == old(self)@.mux,
            old(self)@.mux.queue.len() > 0 ==> (e matches Some(ev) && ev@ == old(
                self,
            )@.mux.queue.first() && final(self)@.mux == (MuxView {
                queue: old(self)@.mux.queue.drop_first(),
                ..old(self)@.mux
            })),
    {
        self.mux.next()
    }
}

/// What the consumer loop does with one merged event.
#[derive(Clone, Debug)]
pub enum Action {
    /// Tear down and rebuild roster, handles and multiplexer, then run the
    /// full-batch recompute.
    Rebuild,
    /// Recompute the snapshot of this one identity.
    Refresh { identity: String },
}

/// Translates one merged event into the reconciliation it demands: a
/// membership change forces a full rebuild; a state change touches only the
/// player that emitted it.
pub fn dispatch(e: TaggedEvent) -> (a: Action)
    ensures
        match e {
            TaggedEvent::RosterChanged => a is Rebuild,
            TaggedEvent::StateChanged { identity } => a matches Action::Refresh {
                identity: id,
            } && id@ == identity@,
        },
{
    match e {
        TaggedEvent::RosterChanged => Action::Rebuild,
        TaggedEvent::StateChanged { identity } => Action::Refresh { identity },
    }
}

/// The state a completed rebuild leaves behind, exactly as
/// [`Reconciler::apply_rebuild`] guarantees it of `final(self)@`.
pub open spec fn rebuild_post(r: ReconcilerView, plan: Seq<Seq<char>>, ok: Seq<bool>) -> bool {
    &&& r.roster == survivors_spec(plan, ok)
    &&& r.handles.len() == r.roster.len()
    &&& forall|i: int|
        0 <= i < r.roster.len() ==> (#[trigger] r.handles[i]).identity == r.roster[i]
            && r.handles[i].epoch == r.epoch
    &&& r.mux.epoch == r.epoch
    &&& r.mux.sources == sources_for_spec(r.roster)
    &&& r.mux.queue == Seq::<EventView>::empty()
}

/// Rebuilding with an unchanged roster is idempotent: whatever states two
/// rebuilds started from, fed the same filtered enumeration and the same
/// probe outcomes they track the same identities — the rosters and the
/// handles' bindings are observably equivalent — while each rebuild's
/// subscriptions are fresh: its handles carry its own epoch, and the later
/// rebuild's handles never carry the earlier one's.
pub proof fn lemma_rebuild_idempotent(
    first: ReconcilerView,
    second: ReconcilerView,
    plan: Seq<Seq<char>>,
    ok: Seq<bool>,
)
    requires
        rebuild_post(first, plan, ok),
        rebuild_post(second, plan, ok),
        first.epoch < second.epoch,
    ensures
        second.roster == first.roster,
        second.handles.len() == first.handles.len(),
        forall|i: int|
            0 <= i < second.handles.len() ==> (#[trigger] second.handles[i]).identity == (
            #[trigger] first.handles[i]).identity,
        forall|i: int|
            0 <= i < second.handles.len() ==> (#[trigger] second.handles[i]).epoch == second.epoch
                && second.handles[i].epoch != first.epoch,
{
}

/// No stale delivery, end to end: a completed rebuild installs a
/// multiplexer of a strictly newer epoch with an empty queue, while every
/// subscription built before it carries some earlier epoch. However many
/// signals those old subscriptions still emit, and in whatever order, the
/// new multiplexer ignores them all: nothing a pre-rebuild subscription
/// does is ever observed after the rebuild, whether its identity was
/// retained or dropped.
pub proof fn lemma_rebuild_blocks_stale_subscriptions(
    r: ReconcilerView,
    plan: Seq<Seq<char>>,
    ok: Seq<bool>,
    prior_epoch: u64,
    offers: Seq<OfferView>,
)
    requires
        rebuild_post(r, plan, ok),
        r.epoch == prior_epoch + 1,
        forall|i: int| 0 <= i < offers.len() ==> offer_epoch(#[trigger] offers[i]) <= prior_epoch,
    ensures
        apply_offers(r.mux, offers) == r.mux,
        apply_offers(r.mux, offers).queue == Seq::<EventView>::empty(),
{
    lemma_no_stale_delivery(r.mux, offers);
}

/// Copies an optional string; the copy reads the same.
fn clone_opt_string(o: &Option<String>) -> (r: Option<String>)
    ensures
        r.deep_view() == o.deep_view(),
{
    match o {
        Some(s) => Some(s.clone()),
        None => None,
    }
}

} // verus!
