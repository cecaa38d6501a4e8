use simple_beatmap_analyzer::options::{default_options_config_text, parse_options_config};

#[test]
fn default_options_file_reads_back_as_defaults() {
    let r = parse_options_config(&default_options_config_text());
    assert_eq!(r.file_path, "");
    assert_eq!(r.stream_distance.as_deref(), Some("16.0"));
    assert_eq!(r.jump_distance.as_deref(), Some("110.0"));
}

#[test]
fn default_options_file_text() {
    let text = default_options_config_text();
    let lines: Vec<&str> = text.lines().collect();
    assert_eq!(lines.len(), 7);
    assert_eq!(lines[4], "FilePath=");
    assert_eq!(lines[5], "StreamDistance=16.0");
    assert_eq!(lines[6], "JumpDistance=110.0");
}

#[test]
fn options_values_are_trimmed_and_last_wins() {
    let text = "FilePath = D:\\osu\\Songs \nStreamDistance=20\nStreamDistance= abc \n//JumpDistance=5\n";
    let r = parse_options_config(text);
    assert_eq!(r.file_path, "D:\\osu\\Songs");
    assert_eq!(r.stream_distance.as_deref(), Some("abc"));
    assert_eq!(r.jump_distance, None);
}

#[test]
fn options_lines_with_two_equals_are_ignored() {
    let r = parse_options_config("FilePath=a=b\nJumpDistance=90.5");
    assert_eq!(r.file_path, "");
    assert_eq!(r.jump_distance.as_deref(), Some("90.5"));
}
