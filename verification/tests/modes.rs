use simple_beatmap_analyzer::modes::{
    beatmaps_per_second, is_analyzed_mode, needs_stats_update, resolve_songs_path,
    GameMode_Serialized,
};

#[test]
fn only_standard_maps_are_analyzed() {
    assert!(is_analyzed_mode(GameMode_Serialized::Osu));
    assert!(!is_analyzed_mode(GameMode_Serialized::Taiko));
    assert!(!is_analyzed_mode(GameMode_Serialized::Catch));
    assert!(!is_analyzed_mode(GameMode_Serialized::Mania));
    assert_eq!(GameMode_Serialized::default(), GameMode_Serialized::Osu);
}

#[test]
fn stats_update_only_when_distances_changed() {
    assert!(!needs_stats_update(true, false, false));
    assert!(!needs_stats_update(false, true, true));
    assert!(needs_stats_update(false, false, true));
    assert!(needs_stats_update(false, true, false));
}

#[test]
fn songs_path_short_hand() {
    assert_eq!(resolve_songs_path("69"), "D:\\osu\\Songs");
    assert_eq!(resolve_songs_path("E:\\Games\\osu!\\Songs"), "E:\\Games\\osu!\\Songs");
    assert_eq!(resolve_songs_path("690"), "690");
}

#[test]
fn rate_over_at_least_one_second() {
    assert_eq!(beatmaps_per_second(2500, 0), 2500);
    assert_eq!(beatmaps_per_second(2500, 2), 1250);
    assert_eq!(beatmaps_per_second(7, 2), 3);
}
