use mpris_watch::mux::TaggedEvent;
use mpris_watch::reconciler::{dispatch, Action, Reconciler};
use mpris_watch::title::resolve_title;

const SPOTIFY: &str = "org.mpris.MediaPlayer2.spotify";
const VLC: &str = "org.mpris.MediaPlayer2.vlc";

fn rebuilt(plan: &[&str]) -> Reconciler {
    let mut rec = Reconciler::new();
    let plan: Vec<String> = plan.iter().map(|s| s.to_string()).collect();
    let ok = vec![true; plan.len()];
    rec.apply_rebuild(&plan, &ok);
    rec
}

#[test]
fn startup_tracks_nothing() {
    let rec = Reconciler::new();
    assert_eq!(rec.epoch, 0);
    assert!(rec.render_lines().is_empty());
}

#[test]
fn one_player_with_full_metadata_and_volume() {
    let mut rec = rebuilt(&[SPOTIFY]);
    let title = resolve_title(
        Some(vec!["Queen".to_string()]),
        Some("Bohemian Rhapsody".to_string()),
    )
    .ok();
    let volume = Some(0.8f64.to_string());
    rec.refresh_all(&vec![title], &vec![volume]);
    assert_eq!(
        rec.render_lines(),
        vec!["spotify[0.8]: Queen - Bohemian Rhapsody".to_string()]
    );
}

#[test]
fn one_player_without_artist_or_volume() {
    let mut rec = rebuilt(&[SPOTIFY]);
    let title = resolve_title(None, Some("Track 1".to_string())).ok();
    rec.refresh_all(&vec![title], &vec![None]);
    assert_eq!(rec.render_lines(), vec!["spotify: Track 1".to_string()]);
}

#[test]
fn unreadable_player_shows_nothing() {
    let mut rec = rebuilt(&[SPOTIFY]);
    rec.refresh_all(&vec![None], &vec![None]);
    assert_eq!(rec.render_lines(), vec!["spotify: Nothing".to_string()]);
}

#[test]
fn emptied_roster_yields_no_lines() {
    let mut rec = rebuilt(&[SPOTIFY]);
    rec.refresh_all(&vec![Some("Track 1".to_string())], &vec![None]);
    assert_eq!(rec.render_lines().len(), 1);
    // the player closed: the next reconciliation sees an empty roster
    rec.apply_rebuild(&Vec::new(), &Vec::new());
    assert!(rec.render_lines().is_empty());
}

#[test]
fn failed_probes_are_omitted_from_the_roster() {
    let mut rec = Reconciler::new();
    let plan = vec![SPOTIFY.to_string(), VLC.to_string()];
    // vlc vanished between enumeration and subscription
    rec.apply_rebuild(&plan, &vec![true, false]);
    assert_eq!(rec.roster, vec![SPOTIFY.to_string()]);
    assert_eq!(rec.handles.len(), 1);
}

#[test]
fn refresh_one_touches_only_the_emitting_player() {
    let mut rec = rebuilt(&[SPOTIFY, VLC]);
    rec.refresh_all(
        &vec![Some("Queen - Bohemian Rhapsody".to_string()), Some("Jazz".to_string())],
        &vec![Some("0.8".to_string()), Some("0.5".to_string())],
    );
    let before = rec.render_lines();
    // only vlc emits a volume change
    rec.refresh_one(VLC, Some("Jazz".to_string()), Some("0.7".to_string()));
    let after = rec.render_lines();
    assert_eq!(after[0], before[0]);
    assert_ne!(after[1], before[1]);
    assert_eq!(after[1], "vlc[0.7]: Jazz".to_string());
}

#[test]
fn refresh_one_of_an_untracked_identity_changes_nothing() {
    let mut rec = rebuilt(&[SPOTIFY]);
    rec.refresh_all(&vec![Some("Track 1".to_string())], &vec![None]);
    let before = rec.render_lines();
    rec.refresh_one(VLC, Some("Jazz".to_string()), None);
    assert_eq!(rec.render_lines(), before);
}

#[test]
fn rebuild_with_unchanged_roster_is_idempotent() {
    let plan = vec![SPOTIFY.to_string(), VLC.to_string()];
    let ok = vec![true, true];
    let mut rec = Reconciler::new();
    rec.apply_rebuild(&plan, &ok);
    let first_roster = rec.roster.clone();
    let first_epochs: Vec<u64> = rec.handles.iter().map(|h| h.epoch).collect();
    rec.apply_rebuild(&plan, &ok);
    // same identities, observably equivalent roster and handle set
    assert_eq!(rec.roster, first_roster);
    let identities: Vec<String> = rec.handles.iter().map(|h| h.identity.clone()).collect();
    assert_eq!(identities, first_roster);
    // but fresh subscriptions: every handle is bound to the newer epoch
    for (h, old_epoch) in rec.handles.iter().zip(first_epochs.iter()) {
        assert_eq!(h.epoch, rec.epoch);
        assert_ne!(h.epoch, *old_epoch);
    }
}

#[test]
fn rebuild_discards_queued_events_of_the_prior_epoch() {
    let mut rec = rebuilt(&[SPOTIFY]);
    let epoch = rec.epoch;
    rec.offer_state_change(epoch, 1);
    // the roster changes before the consumer drains the queue
    rec.apply_rebuild(&vec![SPOTIFY.to_string()], &vec![true]);
    assert!(rec.next_event().is_none());
    // a signal of the torn-down subscription set is ignored as stale
    rec.offer_state_change(epoch, 1);
    assert!(rec.next_event().is_none());
}

#[test]
fn consumer_loop_sees_offered_events_through_the_reconciler() {
    let mut rec = rebuilt(&[SPOTIFY]);
    let epoch = rec.epoch;
    rec.offer_name_change(epoch, 0, SPOTIFY);
    rec.offer_state_change(epoch, 2);
    match rec.next_event() {
        Some(TaggedEvent::RosterChanged) => {}
        other => panic!("expected a roster event, got {:?}", other),
    }
    match rec.next_event() {
        Some(TaggedEvent::StateChanged { identity }) => assert_eq!(identity, SPOTIFY),
        other => panic!("expected a state event, got {:?}", other),
    }
    assert!(rec.next_event().is_none());
}

#[test]
fn dispatch_maps_events_to_their_reconciliation() {
    assert!(matches!(dispatch(TaggedEvent::RosterChanged), Action::Rebuild));
    match dispatch(TaggedEvent::StateChanged { identity: SPOTIFY.to_string() }) {
        Action::Refresh { identity } => assert_eq!(identity, SPOTIFY),
        Action::Rebuild => panic!("a state change must not force a rebuild"),
    }
}
