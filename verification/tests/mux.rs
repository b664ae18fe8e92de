use mpris_watch::mux::{Multiplexer, SourceKind, TaggedEvent};

fn two_player_roster() -> Vec<String> {
    vec![
        "org.mpris.MediaPlayer2.spotify".to_string(),
        "org.mpris.MediaPlayer2.vlc".to_string(),
    ]
}

fn identity_of(e: &TaggedEvent) -> Option<&str> {
    match e {
        TaggedEvent::RosterChanged => None,
        TaggedEvent::StateChanged { identity } => Some(identity.as_str()),
    }
}

#[test]
fn build_registers_one_membership_and_two_sources_per_player() {
    let m = Multiplexer::build(1, &two_player_roster());
    assert_eq!(m.sources.len(), 5);
    assert!(matches!(m.sources[0], SourceKind::Roster));
    match &m.sources[1] {
        SourceKind::Metadata { identity } => {
            assert_eq!(identity, "org.mpris.MediaPlayer2.spotify")
        }
        _ => panic!("source 1 should be a metadata source"),
    }
    match &m.sources[2] {
        SourceKind::Volume { identity } => {
            assert_eq!(identity, "org.mpris.MediaPlayer2.spotify")
        }
        _ => panic!("source 2 should be a volume source"),
    }
    assert!(m.queue.is_empty());
}

#[test]
fn each_source_emitting_once_yields_exactly_one_event_each() {
    let mut m = Multiplexer::build(1, &two_player_roster());
    // every source emits once, in an interleaved order
    m.offer_state_change(1, 3);
    m.offer_name_change(1, 0, "org.mpris.MediaPlayer2.spotify");
    m.offer_state_change(1, 1);
    m.offer_state_change(1, 4);
    m.offer_state_change(1, 2);
    let mut drained = Vec::new();
    while let Some(e) = m.next() {
        drained.push(e);
    }
    assert_eq!(drained.len(), 5);
    assert_eq!(identity_of(&drained[0]), Some("org.mpris.MediaPlayer2.vlc"));
    assert_eq!(identity_of(&drained[1]), None);
    assert_eq!(identity_of(&drained[2]), Some("org.mpris.MediaPlayer2.spotify"));
    assert_eq!(identity_of(&drained[3]), Some("org.mpris.MediaPlayer2.vlc"));
    assert_eq!(identity_of(&drained[4]), Some("org.mpris.MediaPlayer2.spotify"));
    // a quiescent wait afterwards yields nothing further
    assert!(m.next().is_none());
}

#[test]
fn stale_epoch_signals_are_discarded() {
    let mut m = Multiplexer::build(2, &two_player_roster());
    m.offer_state_change(1, 1);
    m.offer_name_change(1, 0, "org.mpris.MediaPlayer2.spotify");
    m.offer_state_change(3, 2);
    assert!(m.next().is_none());
    // the same signals under the current epoch are delivered
    m.offer_state_change(2, 1);
    assert!(m.next().is_some());
}

#[test]
fn membership_signals_outside_the_namespace_are_filtered() {
    let mut m = Multiplexer::build(1, &two_player_roster());
    m.offer_name_change(1, 0, "org.freedesktop.Notifications");
    assert!(m.next().is_none());
    m.offer_name_change(1, 0, "org.mpris.MediaPlayer2.firefox");
    assert!(matches!(m.next(), Some(TaggedEvent::RosterChanged)));
}

#[test]
fn signals_from_unregistered_or_mismatched_sources_are_discarded() {
    let mut m = Multiplexer::build(1, &two_player_roster());
    // out-of-range index
    m.offer_state_change(1, 9);
    // a state signal claiming to come from the membership source
    m.offer_state_change(1, 0);
    // a membership signal claiming to come from a per-player source
    m.offer_name_change(1, 1, "org.mpris.MediaPlayer2.spotify");
    assert!(m.next().is_none());
}

#[test]
fn events_are_delivered_in_arrival_order() {
    let mut m = Multiplexer::build(1, &two_player_roster());
    m.offer_state_change(1, 1);
    m.offer_state_change(1, 1);
    m.offer_name_change(1, 0, "org.mpris.MediaPlayer2.vlc");
    let first = m.next().unwrap();
    let second = m.next().unwrap();
    let third = m.next().unwrap();
    assert_eq!(identity_of(&first), Some("org.mpris.MediaPlayer2.spotify"));
    assert_eq!(identity_of(&second), Some("org.mpris.MediaPlayer2.spotify"));
    assert!(matches!(third, TaggedEvent::RosterChanged));
}
