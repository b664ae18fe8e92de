use mpris_watch::snapshot::PlayerData;

#[test]
fn render_with_title_and_volume() {
    let d = PlayerData::new(
        "org.mpris.MediaPlayer2.spotify".to_string(),
        Some("Queen - Bohemian Rhapsody".to_string()),
        Some("0.8".to_string()),
    );
    assert_eq!(d.render(), "spotify[0.8]: Queen - Bohemian Rhapsody".to_string());
}

#[test]
fn render_with_title_only() {
    let d = PlayerData::new(
        "org.mpris.MediaPlayer2.spotify".to_string(),
        Some("Track 1".to_string()),
        None,
    );
    assert_eq!(d.render(), "spotify: Track 1".to_string());
}

#[test]
fn render_without_title_ignores_volume() {
    let d = PlayerData::new(
        "org.mpris.MediaPlayer2.spotify".to_string(),
        None,
        Some("0.8".to_string()),
    );
    assert_eq!(d.render(), "spotify: Nothing".to_string());
}

#[test]
fn render_keeps_a_name_outside_the_namespace_whole() {
    let d = PlayerData::new("some.other.Service".to_string(), None, None);
    assert_eq!(d.render(), "some.other.Service: Nothing".to_string());
}
