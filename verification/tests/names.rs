use mpris_watch::names::{has_player_prefix, plan_roster, service_prefix, short_name, str_equal, str_has_prefix};

#[test]
fn prefix_constant_is_the_mpris_namespace() {
    assert_eq!(service_prefix(), "org.mpris.MediaPlayer2.");
}

#[test]
fn player_names_are_recognised_by_prefix() {
    assert!(has_player_prefix("org.mpris.MediaPlayer2.spotify"));
    assert!(!has_player_prefix("org.freedesktop.DBus"));
    assert!(!has_player_prefix("org.mpris.MediaPlayer2"));
    assert!(!has_player_prefix(""));
}

#[test]
fn str_has_prefix_on_edges() {
    assert!(str_has_prefix("abc", ""));
    assert!(str_has_prefix("abc", "abc"));
    assert!(!str_has_prefix("ab", "abc"));
    assert!(!str_has_prefix("abd", "abc"));
}

#[test]
fn str_equal_compares_characters() {
    assert!(str_equal("", ""));
    assert!(str_equal("spotify", "spotify"));
    assert!(!str_equal("spotify", "spotifx"));
    assert!(!str_equal("spotify", "spotify2"));
}

#[test]
fn short_name_strips_the_namespace() {
    assert_eq!(short_name("org.mpris.MediaPlayer2.spotify"), "spotify");
    assert_eq!(short_name("org.freedesktop.DBus"), "org.freedesktop.DBus");
}

#[test]
fn plan_roster_keeps_only_players_in_order() {
    let names = vec![
        "org.freedesktop.DBus".to_string(),
        "org.mpris.MediaPlayer2.spotify".to_string(),
        "org.gnome.Shell".to_string(),
        "org.mpris.MediaPlayer2.vlc".to_string(),
    ];
    let roster = plan_roster(&names);
    assert_eq!(
        roster,
        vec![
            "org.mpris.MediaPlayer2.spotify".to_string(),
            "org.mpris.MediaPlayer2.vlc".to_string(),
        ]
    );
}

#[test]
fn plan_roster_of_nothing_is_empty() {
    let roster = plan_roster(&Vec::new());
    assert!(roster.is_empty());
}
