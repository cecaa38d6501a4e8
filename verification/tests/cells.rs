use simple_beatmap_analyzer::cells::{format_integer, render_plain_cell, CellNumbers, CellTexts};
use simple_beatmap_analyzer::columns::FullDataEnum;
use simple_beatmap_analyzer::digest::{md5_hex, to_hex_lower};

fn texts(id: &str) -> CellTexts {
    CellTexts {
        title: "T".to_string(),
        version: "V".to_string(),
        beatmap_id: id.to_string(),
        beatmap_set_id: "S".to_string(),
        creator: "C".to_string(),
        md5: "m".to_string(),
    }
}

fn numbers() -> CellNumbers {
    CellNumbers {
        bpm: 180,
        playable_length: -5,
        longest_stream: 0,
        streams100: 3,
        avg_jump_distance: 1234567,
        avg_jump_speed: 42,
    }
}

#[test]
fn integers_in_decimal() {
    assert_eq!(format_integer(0), "0");
    assert_eq!(format_integer(-7), "-7");
    assert_eq!(format_integer(1234567890), "1234567890");
    assert_eq!(format_integer(i64::MIN), i64::MIN.to_string());
    assert_eq!(format_integer(i64::MAX), i64::MAX.to_string());
}

#[test]
fn plain_cells_of_texts_and_numbers() {
    let t = texts("1234");
    let n = numbers();
    assert_eq!(render_plain_cell(FullDataEnum::Title, &t, &n).as_deref(), Some("T"));
    assert_eq!(render_plain_cell(FullDataEnum::MapSetID, &t, &n).as_deref(), Some("S"));
    assert_eq!(render_plain_cell(FullDataEnum::BPM, &t, &n).as_deref(), Some("180"));
    assert_eq!(render_plain_cell(FullDataEnum::PlayableLength, &t, &n).as_deref(), Some("-5"));
    assert_eq!(render_plain_cell(FullDataEnum::AvgJumpsDistance, &t, &n).as_deref(), Some("1234567"));
    assert_eq!(render_plain_cell(FullDataEnum::AvgJumpsSpeed, &t, &n).as_deref(), Some("42"));
    assert_eq!(render_plain_cell(FullDataEnum::MD5, &t, &n).as_deref(), Some("m"));
}

#[test]
fn decimal_columns_are_left_to_the_caller() {
    let t = texts("1");
    let n = numbers();
    for c in [FullDataEnum::Stars, FullDataEnum::CS, FullDataEnum::DT_BPM, FullDataEnum::HR_AR] {
        assert!(render_plain_cell(c, &t, &n).is_none());
    }
}

#[test]
fn links_need_an_id_longer_than_one_byte() {
    let n = numbers();
    assert_eq!(
        render_plain_cell(FullDataEnum::OsuWebLink, &texts("1234"), &n).as_deref(),
        Some("=HYPERLINK(\"https://osu.ppy.sh/b/1234\")")
    );
    assert_eq!(
        render_plain_cell(FullDataEnum::OsuDirect, &texts("1234"), &n).as_deref(),
        Some("=HYPERLINK(\"osu://b/1234\")")
    );
    assert_eq!(render_plain_cell(FullDataEnum::OsuWebLink, &texts("7"), &n).as_deref(), Some(""));
    assert_eq!(render_plain_cell(FullDataEnum::OsuDirect, &texts(""), &n).as_deref(), Some(""));
    assert_eq!(
        render_plain_cell(FullDataEnum::OsuDirect, &texts("é"), &n).as_deref(),
        Some("=HYPERLINK(\"osu://b/é\")")
    );
}

#[test]
fn md5_of_known_inputs() {
    assert_eq!(md5_hex(b""), "d41d8cd98f00b204e9800998ecf8427e");
    assert_eq!(md5_hex(b"hello world"), "5eb63bbbe01eeed093cb22bb8f5acdc3");
}

#[test]
fn hex_is_lower_case_two_digits_per_byte() {
    assert_eq!(to_hex_lower(&[0x00, 0x0f, 0xab, 0xff]), "000fabff");
    assert_eq!(to_hex_lower(&[]), "");
}
