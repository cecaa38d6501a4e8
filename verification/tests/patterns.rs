use simple_beatmap_analyzer::patterns::{
    count_patterns, is_analyzable, most_common, timing_sections, PatternCounts, StepKind,
};

const S: StepKind = StepKind { stream: true, jump: false };
const J: StepKind = StepKind { stream: false, jump: true };
const N: StepKind = StepKind { stream: false, jump: false };

fn repeat(step: StepKind, n: usize) -> Vec<StepKind> {
    vec![step; n]
}

#[test]
fn two_stream_steps_make_a_triple() {
    let r = count_patterns(&[S, S, N]);
    assert_eq!(r.triples, 3);
    assert_eq!(r.bursts, 3);
    assert_eq!(r.doubles, 0);
    assert_eq!(r.longest_stream, 3);
    assert_eq!(r.jump_notes, 0);
}

#[test]
fn mixed_patterns_are_counted_by_size() {
    let r = count_patterns(&[S, N, S, S, S, N, J, J, N]);
    assert_eq!(r.doubles, 2);
    assert_eq!(r.quads, 4);
    assert_eq!(r.bursts, 4);
    assert_eq!(r.triples, 0);
    assert_eq!(r.longest_stream, 4);
    assert_eq!(r.short_jumps, 3);
    assert_eq!(r.jump_notes, 3);
}

#[test]
fn lone_jumps_are_dropped() {
    let r = count_patterns(&[J, N, J, N, N]);
    assert_eq!(r.short_jumps, 0);
    assert_eq!(r.jump_notes, 0);
}

#[test]
fn lone_jump_is_not_joined_to_a_later_run() {
    let r = count_patterns(&[J, N, J, J]);
    assert_eq!(r.short_jumps, 3);
    assert_eq!(r.mid_jumps, 0);
    assert_eq!(r.long_jumps, 0);
    assert_eq!(r.jump_notes, 3);
}

#[test]
fn single_jump_alone_is_no_pattern() {
    let r = count_patterns(&[J, N, N]);
    assert_eq!(r.jump_notes, 0);
    assert_eq!(r.short_jumps, 0);
}

#[test]
fn burst_reaches_twelve_notes() {
    let r = count_patterns(&repeat(S, 11));
    assert_eq!(r.bursts, 12);
    assert_eq!(r.streams, 0);
    assert_eq!(r.longest_stream, 12);
}

#[test]
fn stream_starts_at_thirteen_notes() {
    let r = count_patterns(&repeat(S, 12));
    assert_eq!(r.bursts, 0);
    assert_eq!(r.streams, 13);
    assert_eq!(r.longest_stream, 13);
}

#[test]
fn deathstream_of_hundred_notes_and_mid_jumps() {
    let mut steps = repeat(S, 99);
    steps.push(N);
    steps.extend(repeat(J, 12));
    let r = count_patterns(&steps);
    assert_eq!(r.deathstreams, 100);
    assert_eq!(r.streams100, 1);
    assert_eq!(r.longest_stream, 100);
    assert_eq!(r.mid_jumps, 13);
    assert_eq!(r.jump_notes, 13);
}

#[test]
fn long_jumps_from_thirty_three_notes() {
    let r = count_patterns(&repeat(J, 32));
    assert_eq!(r.long_jumps, 33);
    assert_eq!(r.mid_jumps, 0);
}

#[test]
fn no_steps_no_patterns() {
    let r: PatternCounts = count_patterns(&[]);
    assert_eq!(r.doubles + r.bursts + r.streams + r.deathstreams, 0);
    assert_eq!(r.longest_stream, 0);
    assert_eq!(r.jump_notes, 0);
}

#[test]
fn pattern_notes_stay_within_the_map() {
    let steps = vec![S, S, N, S, J, J, J, N, S, S, S, S, N, J];
    let r = count_patterns(&steps);
    assert!(r.doubles + r.bursts + r.streams + r.deathstreams <= steps.len() as u64 + 1);
    assert_eq!(r.short_jumps + r.mid_jumps + r.long_jumps, r.jump_notes);
    assert!(r.triples + r.quads <= r.bursts);
}

#[test]
fn most_common_value_wins() {
    assert_eq!(most_common(&[300, 250, 300, 400, 300, 250]), 300);
    assert_eq!(most_common(&[7]), 7);
}

#[test]
fn most_common_tie_gives_one_of_the_tied() {
    let r = most_common(&[1, 2, 2, 1]);
    assert!(r == 1 || r == 2);
}

#[test]
fn timing_sections_follow_object_times() {
    let starts = [0i64, 1000, 2000];
    let times = [500i64, 1000, 1500, 2500, 3000];
    assert_eq!(timing_sections(&starts, &times), vec![0, 1, 1, 2, 2]);
}

#[test]
fn timing_sections_before_first_section() {
    let starts = [100i64, 200];
    let times = [50i64, 150];
    assert_eq!(timing_sections(&starts, &times), vec![0, 0]);
}

#[test]
fn timing_sections_never_go_back() {
    let starts = [0i64, 1000, 2000];
    let times = [2500i64, 500];
    assert_eq!(timing_sections(&starts, &times), vec![2, 2]);
}

#[test]
fn short_maps_are_not_analyzed() {
    assert!(!is_analyzable(3, 1));
    assert!(!is_analyzable(10, 0));
    assert!(is_analyzable(4, 1));
}

#[test]
fn stream_categories_cover_every_pattern() {
    let mut steps = vec![S, N, S, S, N];
    steps.extend(repeat(S, 20));
    steps.push(N);
    steps.extend(repeat(S, 40));
    let r = count_patterns(&steps);
    assert_eq!(r.doubles, 2);
    assert_eq!(r.bursts, 3);
    assert_eq!(r.streams, 21);
    assert_eq!(r.deathstreams, 41);
    assert_eq!(r.doubles + r.bursts + r.streams + r.deathstreams, 2 + 3 + 21 + 41);
    assert_eq!(r.longest_stream, 41);
    assert_eq!(r.streams100, 0);
}
