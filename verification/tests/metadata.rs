use simple_beatmap_analyzer::osu_meta::scan_osu_metadata;

fn lines(text: &str) -> Vec<String> {
    text.lines().map(|l| l.to_string()).collect()
}

#[test]
fn metadata_fields_in_file_order() {
    let text = "osu file format v14\n[Metadata]\nTitle:Night of Knights\nTitleUnicode:Night\nArtist:beatMARIO\nCreator:alacat\nVersion:Extra\nSource:Touhou\nTags:x\nBeatmapID:1234\nBeatmapSetID:99\n";
    let m = scan_osu_metadata(&lines(text)).unwrap();
    assert_eq!(m.title, "Night of Knights");
    assert_eq!(m.creator, "alacat");
    assert_eq!(m.version, "Extra");
    assert_eq!(m.beatmap_id, "1234");
    assert_eq!(m.beatmap_set_id, "");
}

#[test]
fn metadata_value_stops_at_next_colon() {
    let m = scan_osu_metadata(&lines("Title:Re:Zero\nCreator: someone \n")).unwrap();
    assert_eq!(m.title, "Re");
    assert_eq!(m.creator, " someone ");
    assert_eq!(m.version, "");
    assert_eq!(m.beatmap_id, "");
}

#[test]
fn metadata_fields_are_taken_in_order() {
    let m = scan_osu_metadata(&lines("Version:Hard\nTitle:A\nCreator:B\n")).unwrap();
    assert_eq!(m.title, "A");
    assert_eq!(m.creator, "B");
    assert_eq!(m.version, "");
}

#[test]
fn metadata_line_without_colon_is_refused() {
    assert!(scan_osu_metadata(&lines("Title\nCreator:B\n")).is_none());
}

#[test]
fn metadata_of_no_lines_is_empty() {
    let m = scan_osu_metadata(&[]).unwrap();
    assert_eq!(m.title, "");
    assert_eq!(m.beatmap_id, "");
}

#[test]
fn metadata_beatmap_set_id_stays_empty() {
    let text = "osu file format v14\n[Metadata]\nTitle:Song\nTitleUnicode:Song\nArtist:A\nCreator:Me\nVersion:Hard\nSource:\nTags:x\nBeatmapID:123\nBeatmapSetID:45\n";
    let m = scan_osu_metadata(&lines(text)).unwrap();
    assert_eq!(m.title, "Song");
    assert_eq!(m.creator, "Me");
    assert_eq!(m.version, "Hard");
    assert_eq!(m.beatmap_id, "123");
    assert_eq!(m.beatmap_set_id, "");
}

#[test]
fn metadata_lines_after_beatmap_id_are_not_read() {
    let m = scan_osu_metadata(&lines("Title:T\nCreator:C\nVersion:V\nBeatmapID:7\nBeatmapSetID\n")).unwrap();
    assert_eq!(m.beatmap_id, "7");
    assert_eq!(m.beatmap_set_id, "");
}
