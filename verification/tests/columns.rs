use simple_beatmap_analyzer::columns::{
    default_columns_config_text, get_all_enum_values, parse_column, parse_columns_config,
    FullDataEnum,
};
use std::str::FromStr;

#[test]
fn all_columns_in_declared_order() {
    let all = get_all_enum_values();
    assert_eq!(all.len(), 40);
    assert_eq!(all[0], FullDataEnum::Title);
    assert_eq!(all[21], FullDataEnum::NM_99);
    assert_eq!(all[39], FullDataEnum::MD5);
}

#[test]
fn column_names_read_back() {
    for c in get_all_enum_values() {
        if c == FullDataEnum::MD5 {
            assert_eq!(parse_column(c.name()), Err(()));
        } else {
            assert_eq!(parse_column(c.name()), Ok(c));
            assert_eq!(format!("{:?}", c), c.name());
        }
    }
}

#[test]
fn from_str_matches_names_exactly() {
    assert_eq!(FullDataEnum::from_str("HR_CS"), Ok(FullDataEnum::HR_CS));
    assert_eq!(FullDataEnum::from_str("hr_cs"), Err(()));
    assert_eq!(FullDataEnum::from_str(" Title"), Err(()));
    assert_eq!(FullDataEnum::from_str("MD5"), Err(()));
    assert_eq!(FullDataEnum::from_str(""), Err(()));
}

#[test]
fn default_columns_file_reads_back_as_defaults() {
    let text = default_columns_config_text();
    assert_eq!(parse_columns_config(&text), get_all_enum_values());
}

#[test]
fn default_columns_file_text() {
    let text = default_columns_config_text();
    let lines: Vec<&str> = text.lines().collect();
    assert_eq!(lines.len(), 4 + 39);
    assert!(lines[0].starts_with("//In this file"));
    assert_eq!(lines[3], format!("Defaults: {:?}", get_all_enum_values()));
    assert_eq!(lines[4], "Title=1");
    assert_eq!(lines[42], "OsuWebLink=1");
    assert!(text.ends_with("OsuWebLink=1\n"));
}

#[test]
fn columns_config_selects_in_file_order() {
    let text = "//comment=1\nBPM = 1 \r\nTitle=0\nStars=1\nMD5=1\nUnknown=1\nSI=1=1\n  AR\t=\t1";
    assert_eq!(
        parse_columns_config(text),
        vec![FullDataEnum::BPM, FullDataEnum::Stars, FullDataEnum::AR, FullDataEnum::MD5]
    );
}

#[test]
fn empty_columns_config_gives_md5_only() {
    assert_eq!(parse_columns_config(""), vec![FullDataEnum::MD5]);
    assert_eq!(parse_columns_config("\n\n"), vec![FullDataEnum::MD5]);
}

#[test]
fn columns_config_keeps_duplicates() {
    assert_eq!(
        parse_columns_config("CS=1\nCS=1\n"),
        vec![FullDataEnum::CS, FullDataEnum::CS, FullDataEnum::MD5]
    );
}

#[test]
fn columns_config_trims_unicode_white_space() {
    assert_eq!(
        parse_columns_config("\u{3000}OD\u{a0}=1\u{2003}\n"),
        vec![FullDataEnum::OD, FullDataEnum::MD5]
    );
}

#[test]
fn every_column_listed_once() {
    let all = get_all_enum_values();
    for (i, a) in all.iter().enumerate() {
        for (j, b) in all.iter().enumerate() {
            assert_eq!(a == b, i == j);
        }
    }
}

#[test]
fn md5_stays_last_even_when_selected() {
    let cols = parse_columns_config("MD5=1\nTitle=1\nMD5 = 1\n");
    assert_eq!(cols, vec![FullDataEnum::Title, FullDataEnum::MD5]);
}

#[test]
fn column_headers_are_names() {
    let headers = simple_beatmap_analyzer::columns::column_headers(&[
        FullDataEnum::DT_AR,
        FullDataEnum::Title,
        FullDataEnum::MD5,
    ]);
    assert_eq!(headers, vec!["DT_AR".to_string(), "Title".to_string(), "MD5".to_string()]);
}
