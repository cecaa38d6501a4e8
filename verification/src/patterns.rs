use std::collections::HashMap;
use vstd::prelude::*;

verus! {

broadcast use vstd::std_specs::hash::group_hash_axioms;

/// Number of occurrences of `x` in `s`.
pub open spec fn count_in(s: Seq<i32>, x: i32) -> nat
    decreases s.len(),
{
    if s.len() == 0 {
        0
    } else {
        count_in(s.drop_last(), x) + if s.last() == x {
            1nat
        } else {
            0nat
        }
    }
}

/// A value never occurs more often than the sequence is long, and it occurs
/// at all only if the sequence contains it.
pub proof fn lemma_count_in_bounds(s: Seq<i32>, x: i32)
    ensures
        count_in(s, x) <= s.len(),
        count_in(s, x) > 0 ==> s.contains(x),
    decreases s.len(),
{
    if s.len() > 0 {
        lemma_count_in_bounds(s.drop_last(), x);
        if count_in(s.drop_last(), x) > 0 {
            let k = choose|k: int| 0 <= k < s.drop_last().len() && s.drop_last()[k] == x;
            assert(s[k] == x);
        }
        if s.last() == x {
            assert(s[s.len() - 1] == x);
        }
    }
}

/// Returns a value that occurs most often in `values`.
///
/// Where several values share the highest count, any one of them may be returned.
pub fn most_common(values: &[i32]) -> (r: i32)
    requires
        values@.len() > 0,
    ensures
        values@.contains(r),
        forall|x: i32| count_in(values@, x) <= count_in(values@, r),
{
    let n = values.len();
    let mut counts: HashMap<i32, usize> = HashMap::new();
    let mut i: usize = 0;
    while i < n
        invariant
            n == values@.len(),
            0 <= i <= n,
            forall|x: i32|
                #![trigger counts@.contains_key(x)]
                counts@.contains_key(x) <==> count_in(values@.take(i as int), x) > 0,
            forall|x: i32|
                #![trigger counts@[x]]
                counts@.contains_key(x) ==> counts@[x] == count_in(values@.take(i as int), x),
        decreases n - i,
    {
        let v = values[i];
        let ghost prefix = values@.take(i as int);
        let ghost next = values@.take(i + 1);
        assert(next.drop_last() =~= prefix);
        assert(next.last() == v);
        proof {
            lemma_count_in_bounds(prefix, v);
        }
        let c: usize = match counts.get(&v) {
            Some(c) => *c,
            None => 0,
        };
        counts.insert(v, c + 1);
        i += 1;
    }
    assert(values@.take(n as int) =~= values@);
    let mut best: i32 = values[0];
    let mut best_count: usize = match counts.get(&best) {
        Some(c) => *c,
        None => 0,
    };
    proof {
        assert(values@.contains(best)) by {
            assert(values@[0] == best);
        }
        lemma_count_in_zero_if_absent_not(values@, best);
    }
    let mut j: usize = 0;
    while j < n
        invariant
            n == values@.len(),
            0 <= j <= n,
            values@.contains(best),
            best_count == count_in(values@, best),
            forall|x: i32|
                #![trigger counts@.contains_key(x)]
                counts@.contains_key(x) <==> count_in(values@, x) > 0,
            forall|x: i32|
                #![trigger counts@[x]]
                counts@.contains_key(x) ==> counts@[x] == count_in(values@, x),
            forall|k: int| 0 <= k < j ==> count_in(values@, #[trigger] values@[k]) <= best_count,
        decreases n - j,
    {
        let v = values[j];
        proof {
            lemma_count_in_zero_if_absent_not(values@, v);
            assert(values@.contains(v)) by {
                assert(values@[j as int] == v);
            }
        }
        let c: usize = match counts.get(&v) {
            Some(c) => *c,
            None => 0,
        };
        if c > best_count {
            best = v;
            best_count = c;
        }
        j += 1;
    }
    proof {
        assert forall|x: i32| count_in(values@, x) <= count_in(values@, best) by {
            lemma_count_in_bounds(values@, x);
            if count_in(values@, x) > 0 {
                let k = choose|k: int| 0 <= k < values@.len() && values@[k] == x;
                assert(count_in(values@, values@[k]) <= best_count);
            }
        }
    }
    best
}

/// A value that the sequence contains occurs in it at least once.
proof fn lemma_count_in_zero_if_absent_not(s: Seq<i32>, x: i32)
    ensures
        s.contains(x) ==> count_in(s, x) > 0,
    decreases s.len(),
{
    if s.len() > 0 {
        lemma_count_in_zero_if_absent_not(s.drop_last(), x);
        if s.contains(x) && s.last() != x {
            let k = choose|k: int| 0 <= k < s.len() && s[k] == x;
            assert(s.drop_last()[k] == x);
        }
    }
}

} // verus!

verus! {

/// Classification of the step between two consecutive hit objects.
///
/// `stream` marks a step that continues a 1/4 pattern (objects overlapping or close,
/// a quarter beat apart); `jump` marks a step that continues a 1/2 pattern (objects far
/// apart, half a beat apart).
#[derive(Clone, Copy, Debug)]
pub struct StepKind {
    pub stream: bool,
    pub jump: bool,
}

/// Note counts of the stream and jump patterns found in a map.
///
/// Every figure but the pattern counts `streams100` is a number of notes: a pattern of
/// `n` notes adds `n` to the category it falls into.
#[derive(Clone, Copy, Debug)]
pub struct PatternCounts {
    /// Notes in 1/4 patterns of exactly 2 notes.
    pub doubles: u64,
    /// Notes in 1/4 patterns of exactly 3 notes.
    pub triples: u64,
    /// Notes in 1/4 patterns of exactly 4 notes.
    pub quads: u64,
    /// Notes in 1/4 patterns of 3 to 12 notes.
    pub bursts: u64,
    /// Notes in 1/4 patterns of 13 to 32 notes.
    pub streams: u64,
    /// Notes in 1/4 patterns of 33 notes or more.
    pub deathstreams: u64,
    /// Notes in the longest 1/4 pattern (0 when there is none).
    pub longest_stream: u64,
    /// Number of 1/4 patterns of 100 notes or more.
    pub streams100: u64,
    /// Notes in 1/2 patterns of 3 to 12 notes.
    pub short_jumps: u64,
    /// Notes in 1/2 patterns of 13 to 32 notes.
    pub mid_jumps: u64,
    /// Notes in 1/2 patterns of 33 notes or more.
    pub long_jumps: u64,
    /// Notes in all 1/2 patterns.
    pub jump_notes: u64,
}

/// The stream flags of the steps, in order.
pub open spec fn stream_flags(steps: Seq<StepKind>) -> Seq<bool> {
    steps.map_values(|s: StepKind| s.stream)
}

/// The jump flags of the steps, in order.
pub open spec fn jump_flags(steps: Seq<StepKind>) -> Seq<bool> {
    steps.map_values(|s: StepKind| s.jump)
}

/// Scanning stream flags: the sizes (in notes) of the 1/4 patterns closed so far, and the
/// number of steps of the pattern still open.
///
/// A run of `k` consecutive stream steps joins `k + 1` notes; it closes at the first step
/// that is no stream step.
pub open spec fn scan_streams(flags: Seq<bool>) -> (Seq<nat>, nat)
    decreases flags.len(),
{
    if flags.len() == 0 {
        (seq![], 0)
    } else {
        let (done, open) = scan_streams(flags.drop_last());
        if flags.last() {
            (done, open + 1)
        } else if open > 0 {
            (done.push(open + 1), 0)
        } else {
            (done, 0)
        }
    }
}

/// Sizes in notes of all 1/4 patterns, in order, the one still open at the end included.
pub open spec fn stream_patterns(flags: Seq<bool>) -> Seq<nat> {
    let (done, open) = scan_streams(flags);
    if open > 0 {
        done.push(open + 1)
    } else {
        done
    }
}

/// Scanning jump flags: the sizes (in notes) of the 1/2 patterns closed so far, and the
/// number of jump steps counted towards the pattern still open.
///
/// A run of consecutive jump steps ends at the first step that is no jump step: a run of
/// at least 2 jump steps (3 notes) closes as a pattern there, a single jump step is
/// dropped.
pub open spec fn scan_jumps(flags: Seq<bool>) -> (Seq<nat>, nat)
    decreases flags.len(),
{
    if flags.len() == 0 {
        (seq![], 0)
    } else {
        let (done, open) = scan_jumps(flags.drop_last());
        if flags.last() {
            (done, open + 1)
        } else if open >= 2 {
            (done.push(open + 1), 0)
        } else {
            (done, 0)
        }
    }
}

/// Sizes in notes of all 1/2 patterns, in order, the one still open at the end included.
pub open spec fn jump_patterns(flags: Seq<bool>) -> Seq<nat> {
    let (done, open) = scan_jumps(flags);
    if open >= 2 {
        done.push(open + 1)
    } else {
        done
    }
}

/// Sum of the sizes `n` with `lo <= n <= hi`.
pub open spec fn notes_between(sizes: Seq<nat>, lo: nat, hi: nat) -> nat
    decreases sizes.len(),
{
    if sizes.len() == 0 {
        0
    } else {
        notes_between(sizes.drop_last(), lo, hi) + if lo <= sizes.last() <= hi {
            sizes.last()
        } else {
            0
        }
    }
}

/// Sum of the sizes `n` with `lo <= n`.
pub open spec fn notes_from(sizes: Seq<nat>, lo: nat) -> nat
    decreases sizes.len(),
{
    if sizes.len() == 0 {
        0
    } else {
        notes_from(sizes.drop_last(), lo) + if lo <= sizes.last() {
            sizes.last()
        } else {
            0
        }
    }
}

/// Number of sizes `n` with `lo <= n`.
pub open spec fn patterns_from(sizes: Seq<nat>, lo: nat) -> nat
    decreases sizes.len(),
{
    if sizes.len() == 0 {
        0
    } else {
        patterns_from(sizes.drop_last(), lo) + if lo <= sizes.last() {
            1nat
        } else {
            0nat
        }
    }
}

/// The largest size, 0 for none.
pub open spec fn largest(sizes: Seq<nat>) -> nat
    decreases sizes.len(),
{
    if sizes.len() == 0 {
        0
    } else {
        let m = largest(sizes.drop_last());
        if sizes.last() > m {
            sizes.last()
        } else {
            m
        }
    }
}

/// The 1/4 statistics of `r` are those of the pattern sizes `s`.
pub open spec fn stream_stats(r: PatternCounts, s: Seq<nat>) -> bool {
    &&& r.doubles == notes_between(s, 2, 2)
    &&& r.triples == notes_between(s, 3, 3)
    &&& r.quads == notes_between(s, 4, 4)
    &&& r.bursts == notes_between(s, 3, 12)
    &&& r.streams == notes_between(s, 13, 32)
    &&& r.deathstreams == notes_from(s, 33)
    &&& r.longest_stream == largest(s)
    &&& r.streams100 == patterns_from(s, 100)
}

/// The 1/2 statistics of `r` are those of the pattern sizes `j`.
pub open spec fn jump_stats(r: PatternCounts, j: Seq<nat>) -> bool {
    &&& r.short_jumps == notes_between(j, 3, 12)
    &&& r.mid_jumps == notes_between(j, 13, 32)
    &&& r.long_jumps == notes_from(j, 33)
    &&& r.jump_notes == notes_from(j, 0)
}

/// Every pattern statistic of `r` is the one that the steps give.
pub open spec fn counts_of(r: PatternCounts, steps: Seq<StepKind>) -> bool {
    &&& stream_stats(r, stream_patterns(stream_flags(steps)))
    &&& jump_stats(r, jump_patterns(jump_flags(steps)))
}

proof fn lemma_sums_bounded(sizes: Seq<nat>, lo: nat, hi: nat)
    ensures
        notes_between(sizes, lo, hi) <= notes_from(sizes, 0),
        notes_from(sizes, lo) <= notes_from(sizes, 0),
        lo >= 1 ==> patterns_from(sizes, lo) <= notes_from(sizes, lo),
        largest(sizes) <= notes_from(sizes, 0),
    decreases sizes.len(),
{
    if sizes.len() > 0 {
        lemma_sums_bounded(sizes.drop_last(), lo, hi);
    }
}

/// Adds a closed 1/4 pattern of `size` notes to the statistics.
fn close_stream(r: &mut PatternCounts, size: u64, Ghost(s): Ghost<Seq<nat>>)
    requires
        stream_stats(*old(r), s),
        notes_from(s, 0) + size <= u64::MAX,
    ensures
        stream_stats(*final(r), s.push(size as nat)),
        final(r).short_jumps == old(r).short_jumps,
        final(r).mid_jumps == old(r).mid_jumps,
        final(r).long_jumps == old(r).long_jumps,
        final(r).jump_notes == old(r).jump_notes,
{
    let ghost t = s.push(size as nat);
    assert(t.drop_last() =~= s);
    proof {
        lemma_sums_bounded(s, 0, 0);
        lemma_sums_bounded(s, 2, 2);
        lemma_sums_bounded(s, 3, 3);
        lemma_sums_bounded(s, 4, 4);
        lemma_sums_bounded(s, 3, 12);
        lemma_sums_bounded(s, 13, 32);
        lemma_sums_bounded(s, 33, 33);
        lemma_sums_bounded(s, 100, 100);
    }
    if size == 2 {
        r.doubles = r.doubles + 2;
    } else if size == 3 {
        r.triples = r.triples + 3;
        r.bursts = r.bursts + 3;
    } else if size == 4 {
        r.quads = r.quads + 4;
        r.bursts = r.bursts + 4;
    } else if size <= 12 {
        if size >= 3 {
            r.bursts = r.bursts + size;
        }
    } else if size <= 32 {
        r.streams = r.streams + size;
    } else {
        r.deathstreams = r.deathstreams + size;
        if size >= 100 {
            r.streams100 = r.streams100 + 1;
        }
    }
    if size > r.longest_stream {
        r.longest_stream = size;
    }
}

/// Adds a closed 1/2 pattern of `size` notes to the statistics.
fn close_jump(r: &mut PatternCounts, size: u64, Ghost(j): Ghost<Seq<nat>>)
    requires
        jump_stats(*old(r), j),
        notes_from(j, 0) + size <= u64::MAX,
    ensures
        jump_stats(*final(r), j.push(size as nat)),
        final(r).doubles == old(r).doubles,
        final(r).triples == old(r).triples,
        final(r).quads == old(r).quads,
        final(r).bursts == old(r).bursts,
        final(r).streams == old(r).streams,
        final(r).deathstreams == old(r).deathstreams,
        final(r).longest_stream == old(r).longest_stream,
        final(r).streams100 == old(r).streams100,
{
    let ghost t = j.push(size as nat);
    assert(t.drop_last() =~= j);
    proof {
        lemma_sums_bounded(j, 3, 12);
        lemma_sums_bounded(j, 13, 32);
        lemma_sums_bounded(j, 33, 33);
    }
    r.jump_notes = r.jump_notes + size;
    if 3 <= size && size <= 12 {
        r.short_jumps = r.short_jumps + size;
    } else if 13 <= size && size <= 32 {
        r.mid_jumps = r.mid_jumps + size;
    } else if size >= 33 {
        r.long_jumps = r.long_jumps + size;
    }
}

/// Counts the stream and jump patterns that the classified steps between consecutive hit
/// objects form.
///
/// `steps[k]` is the step from hit object `k` to hit object `k + 1`, so a map of `n` hit
/// objects has `n - 1` steps.
pub fn count_patterns(steps: &[StepKind]) -> (r: PatternCounts)
    requires
        steps@.len() < usize::MAX,
    ensures
        counts_of(r, steps@),
{
    let n = steps.len();
    let mut r = PatternCounts {
        doubles: 0,
        triples: 0,
        quads: 0,
        bursts: 0,
        streams: 0,
        deathstreams: 0,
        longest_stream: 0,
        streams100: 0,
        short_jumps: 0,
        mid_jumps: 0,
        long_jumps: 0,
        jump_notes: 0,
    };
    let mut stream_open: u64 = 0;
    let mut jump_open: u64 = 0;
    let mut i: usize = 0;
    assert(stream_flags(steps@.take(0)) =~= Seq::<bool>::empty());
    assert(jump_flags(steps@.take(0)) =~= Seq::<bool>::empty());
    while i < n
        invariant
            n == steps@.len(),
            n < usize::MAX,
            i <= n,
            stream_open == scan_streams(stream_flags(steps@.take(i as int))).1,
            jump_open == scan_jumps(jump_flags(steps@.take(i as int))).1,
            stream_stats(r, scan_streams(stream_flags(steps@.take(i as int))).0),
            jump_stats(r, scan_jumps(jump_flags(steps@.take(i as int))).0),
            notes_from(scan_streams(stream_flags(steps@.take(i as int))).0, 0) + stream_open <= i,
            notes_from(scan_jumps(jump_flags(steps@.take(i as int))).0, 0) + jump_open <= i,
        decreases n - i,
    {
        let st = steps[i];
        let ghost sf = stream_flags(steps@.take(i + 1));
        let ghost jf = jump_flags(steps@.take(i + 1));
        assert(sf.drop_last() =~= stream_flags(steps@.take(i as int)));
        assert(jf.drop_last() =~= jump_flags(steps@.take(i as int)));
        assert(sf.last() == st.stream);
        assert(jf.last() == st.jump);
        let ghost sdone = scan_streams(stream_flags(steps@.take(i as int))).0;
        let ghost jdone = scan_jumps(jump_flags(steps@.take(i as int))).0;
        if st.stream {
            stream_open = stream_open + 1;
        } else if stream_open > 0 {
            assert(sdone.push((stream_open + 1) as nat).drop_last() =~= sdone);
            close_stream(&mut r, stream_open + 1, Ghost(sdone));
            stream_open = 0;
        }
        if st.jump {
            jump_open = jump_open + 1;
        } else {
            if jump_open >= 2 {
                assert(jdone.push((jump_open + 1) as nat).drop_last() =~= jdone);
                close_jump(&mut r, jump_open + 1, Ghost(jdone));
            }
            jump_open = 0;
        }
        i = i + 1;
    }
    assert(steps@.take(n as int) =~= steps@);
    let ghost sdone = scan_streams(stream_flags(steps@)).0;
    let ghost jdone = scan_jumps(jump_flags(steps@)).0;
    if stream_open > 0 {
        close_stream(&mut r, stream_open + 1, Ghost(sdone));
    }
    if jump_open >= 2 {
        close_jump(&mut r, jump_open + 1, Ghost(jdone));
    }
    r
}

} // verus!

verus! {

proof fn lemma_scan_streams(flags: Seq<bool>)
    ensures
        notes_from(scan_streams(flags).0, 0) + scan_streams(flags).1 <= flags.len(),
        forall|k: int|
            0 <= k < scan_streams(flags).0.len() ==> #[trigger] scan_streams(flags).0[k] >= 2,
    decreases flags.len(),
{
    if flags.len() > 0 {
        lemma_scan_streams(flags.drop_last());
        let (done, open) = scan_streams(flags.drop_last());
        assert(done.push(open + 1).drop_last() =~= done);
    }
}

proof fn lemma_scan_jumps(flags: Seq<bool>)
    ensures
        notes_from(scan_jumps(flags).0, 0) + scan_jumps(flags).1 <= flags.len(),
        forall|k: int| 0 <= k < scan_jumps(flags).0.len() ==> #[trigger] scan_jumps(flags).0[k] >= 3,
    decreases flags.len(),
{
    if flags.len() > 0 {
        lemma_scan_jumps(flags.drop_last());
        let (done, open) = scan_jumps(flags.drop_last());
        assert(done.push(open + 1).drop_last() =~= done);
    }
}

proof fn lemma_stream_patterns_shape(flags: Seq<bool>)
    ensures
        notes_from(stream_patterns(flags), 0) <= flags.len() + 1,
        forall|k: int|
            0 <= k < stream_patterns(flags).len() ==> #[trigger] stream_patterns(flags)[k] >= 2,
{
    lemma_scan_streams(flags);
    let (done, open) = scan_streams(flags);
    assert(done.push(open + 1).drop_last() =~= done);
}

proof fn lemma_jump_patterns_shape(flags: Seq<bool>)
    ensures
        notes_from(jump_patterns(flags), 0) <= flags.len() + 1,
        forall|k: int|
            0 <= k < jump_patterns(flags).len() ==> #[trigger] jump_patterns(flags)[k] >= 3,
{
    lemma_scan_jumps(flags);
    let (done, open) = scan_jumps(flags);
    assert(done.push(open + 1).drop_last() =~= done);
}

proof fn lemma_partition(sizes: Seq<nat>)
    requires
        forall|k: int| 0 <= k < sizes.len() ==> #[trigger] sizes[k] >= 2,
    ensures
        notes_between(sizes, 2, 2) + notes_between(sizes, 3, 12) + notes_between(sizes, 13, 32)
            + notes_from(sizes, 33) == notes_from(sizes, 0),
        notes_between(sizes, 3, 12) + notes_between(sizes, 13, 32) + notes_from(sizes, 33)
            == notes_from(sizes, 3),
        notes_between(sizes, 3, 3) + notes_between(sizes, 4, 4) <= notes_between(sizes, 3, 12),
        patterns_from(sizes, 100) > 0 ==> largest(sizes) >= 100,
        sizes.len() > 0 ==> largest(sizes) >= 2,
    decreases sizes.len(),
{
    if sizes.len() > 0 {
        assert(sizes.last() == sizes[sizes.len() - 1]);
        lemma_partition(sizes.drop_last());
    }
}

/// The notes of all 1/4 patterns of a map, and those of all its 1/2 patterns, are each at
/// most the number of its hit objects: no category exceeds 100% of the map.
pub proof fn law_pattern_notes_within_map(steps: Seq<StepKind>, r: PatternCounts)
    requires
        counts_of(r, steps),
    ensures
        r.doubles + r.bursts + r.streams + r.deathstreams <= steps.len() + 1,
        r.jump_notes <= steps.len() + 1,
{
    lemma_stream_patterns_shape(stream_flags(steps));
    lemma_jump_patterns_shape(jump_flags(steps));
    lemma_partition(stream_patterns(stream_flags(steps)));
}

/// Every 1/4 pattern is a double, a burst, a stream or a deathstream, and exactly one of
/// them; every 1/2 pattern is a short, a mid or a long jump, and exactly one of them.
/// Triples and quads are bursts.
pub proof fn law_pattern_categories_partition(steps: Seq<StepKind>, r: PatternCounts)
    requires
        counts_of(r, steps),
    ensures
        r.doubles + r.bursts + r.streams + r.deathstreams == notes_from(
            stream_patterns(stream_flags(steps)),
            0,
        ),
        r.short_jumps + r.mid_jumps + r.long_jumps == r.jump_notes,
        r.triples + r.quads <= r.bursts,
        r.streams100 > 0 ==> r.longest_stream >= 100,
        r.longest_stream == 0 || r.longest_stream >= 2,
{
    let s = stream_patterns(stream_flags(steps));
    let j = jump_patterns(jump_flags(steps));
    lemma_stream_patterns_shape(stream_flags(steps));
    lemma_jump_patterns_shape(jump_flags(steps));
    lemma_partition(s);
    lemma_partition(j);
    lemma_jumps_from_three(j);
}

proof fn lemma_largest_is_a_maximum(sizes: Seq<nat>)
    ensures
        forall|k: int| 0 <= k < sizes.len() ==> #[trigger] sizes[k] <= largest(sizes),
        sizes.len() > 0 ==> exists|k: int| 0 <= k < sizes.len() && sizes[k] == largest(sizes),
        sizes.len() == 0 ==> largest(sizes) == 0,
    decreases sizes.len(),
{
    if sizes.len() > 0 {
        let init = sizes.drop_last();
        lemma_largest_is_a_maximum(init);
        assert forall|k: int| 0 <= k < sizes.len() implies #[trigger] sizes[k] <= largest(sizes) by {
            if k < init.len() {
                assert(sizes[k] == init[k]);
            }
        }
        if sizes.last() > largest(init) {
            assert(sizes[sizes.len() - 1] == largest(sizes));
        } else if init.len() == 0 {
            assert(sizes[0] == sizes.last());
        } else {
            let k = choose|k: int| 0 <= k < init.len() && init[k] == largest(init);
            assert(sizes[k] == init[k]);
        }
    }
}

/// The longest stream is the size in notes of the largest 1/4 pattern of the map, doubles
/// included: no 1/4 pattern is longer, one has exactly that size, and it is 0 only where
/// the map has no 1/4 pattern at all.
pub proof fn law_longest_stream_is_largest_pattern(steps: Seq<StepKind>, r: PatternCounts)
    requires
        counts_of(r, steps),
    ensures
        forall|k: int|
            0 <= k < stream_patterns(stream_flags(steps)).len() ==> #[trigger] stream_patterns(
                stream_flags(steps),
            )[k] <= r.longest_stream,
        stream_patterns(stream_flags(steps)).len() > 0 ==> r.longest_stream >= 2 && exists|k: int|
            0 <= k < stream_patterns(stream_flags(steps)).len() && stream_patterns(
                stream_flags(steps),
            )[k] == r.longest_stream,
        stream_patterns(stream_flags(steps)).len() == 0 <==> r.longest_stream == 0,
{
    let s = stream_patterns(stream_flags(steps));
    lemma_stream_patterns_shape(stream_flags(steps));
    lemma_largest_is_a_maximum(s);
    if s.len() > 0 {
        assert(s[0] >= 2);
        assert(s[0] <= r.longest_stream);
    }
}

proof fn lemma_jumps_from_three(sizes: Seq<nat>)
    requires
        forall|k: int| 0 <= k < sizes.len() ==> #[trigger] sizes[k] >= 3,
    ensures
        notes_from(sizes, 3) == notes_from(sizes, 0),
    decreases sizes.len(),
{
    if sizes.len() > 0 {
        assert(sizes.last() == sizes[sizes.len() - 1]);
        lemma_jumps_from_three(sizes.drop_last());
    }
}

} // verus!

verus! {

/// Whether a map has enough material for pattern analysis: more than 3 hit objects and at
/// least one timing point.
pub fn is_analyzable(n_hit_objects: usize, n_timing_points: usize) -> (r: bool)
    ensures
        r == (n_hit_objects > 3 && n_timing_points > 0),
{
    n_hit_objects > 3 && n_timing_points > 0
}

/// Starting at timing section `idx`, moves to the next section as long as that one starts
/// at or before time `t`.
pub open spec fn advance_section(starts: Seq<i64>, idx: nat, t: i64) -> nat
    decreases starts.len() - idx,
{
    if idx + 1 >= starts.len() {
        idx
    } else if starts[idx + 1int] > t {
        idx
    } else {
        advance_section(starts, idx + 1, t)
    }
}

/// The timing section chosen for each of `times` in turn; the walk starts at section 0 and
/// never goes back.
pub open spec fn section_walk(starts: Seq<i64>, times: Seq<i64>) -> Seq<nat>
    decreases times.len(),
{
    if times.len() == 0 {
        seq![]
    } else {
        let prev = section_walk(starts, times.drop_last());
        let from: nat = if prev.len() == 0 {
            0
        } else {
            prev.last()
        };
        prev.push(advance_section(starts, from, times.last()))
    }
}

proof fn lemma_section_walk_len(starts: Seq<i64>, times: Seq<i64>)
    ensures
        section_walk(starts, times).len() == times.len(),
    decreases times.len(),
{
    if times.len() > 0 {
        lemma_section_walk_len(starts, times.drop_last());
    }
}

/// Finds, for the time of each hit object in turn, the timing section that applies to it.
///
/// Section and object times are given as integers that order as the times do. The search
/// starts at the section found for the previous object (section 0 for the first) and moves
/// forward while the next section starts at or before the object's time.
pub fn timing_sections(section_starts: &[i64], times: &[i64]) -> (r: Vec<usize>)
    requires
        section_starts@.len() > 0,
    ensures
        r@.len() == times@.len(),
        forall|k: int|
            0 <= k < times@.len() ==> r@[k] as nat == #[trigger] section_walk(
                section_starts@,
                times@,
            )[k],
{
    let last = section_starts.len() - 1;
    let mut idx: usize = 0;
    let mut r: Vec<usize> = Vec::new();
    let mut k: usize = 0;
    proof {
        lemma_section_walk_len(section_starts@, times@.take(0));
    }
    while k < times.len()
        invariant
            last + 1 == section_starts@.len(),
            k <= times@.len(),
            idx <= last,
            r@.len() == k,
            section_walk(section_starts@, times@.take(k as int)).len() == k,
            forall|m: int|
                0 <= m < k ==> r@[m] as nat == #[trigger] section_walk(
                    section_starts@,
                    times@.take(k as int),
                )[m],
            k == 0 ==> idx == 0,
            k > 0 ==> idx as nat == section_walk(section_starts@, times@.take(k as int)).last(),
        decreases times@.len() - k,
    {
        let t = times[k];
        let ghost from = idx as nat;
        while idx < last && section_starts[idx + 1] <= t
            invariant
                last + 1 == section_starts@.len(),
                idx <= last,
                advance_section(section_starts@, idx as nat, t) == advance_section(
                    section_starts@,
                    from,
                    t,
                ),
            decreases last - idx,
        {
            idx = idx + 1;
        }
        r.push(idx);
        proof {
            let next = times@.take(k + 1);
            assert(next.drop_last() =~= times@.take(k as int));
            lemma_section_walk_len(section_starts@, next);
        }
        k = k + 1;
    }
    assert(times@.take(k as int) =~= times@);
    r
}

/// For object times in increasing order, the section chosen for each object is the one in
/// effect at its time: it is the first section or starts at or before that time, and it
/// is the last section or the next one starts after that time. The chosen sections never
/// go back.
pub proof fn law_sections_in_effect(starts: Seq<i64>, times: Seq<i64>)
    requires
        starts.len() > 0,
        forall|a: int, b: int| 0 <= a <= b < times.len() ==> times[a] <= times[b],
    ensures
        forall|k: int|
            0 <= k < times.len() ==> {
                let s = #[trigger] section_walk(starts, times)[k];
                &&& s < starts.len()
                &&& s == 0 || starts[s as int] <= times[k]
                &&& s + 1 == starts.len() || starts[s + 1int] > times[k]
            },
        forall|a: int, b: int|
            0 <= a <= b < times.len() ==> section_walk(starts, times)[a] <= section_walk(
                starts,
                times,
            )[b],
    decreases times.len(),
{
    lemma_section_walk_len(starts, times);
    if times.len() > 0 {
        let prefix = times.drop_last();
        law_sections_in_effect(starts, prefix);
        lemma_section_walk_len(starts, prefix);
        let prev = section_walk(starts, prefix);
        let from: nat = if prev.len() == 0 {
            0
        } else {
            prev.last()
        };
        let t = times.last();
        if prev.len() > 0 {
            assert(prev.last() == prev[prev.len() - 1]);
            assert(times[prev.len() - 1] <= t);
        }
        lemma_advance_section(starts, from, t);
        let w = section_walk(starts, times);
        assert(w == prev.push(advance_section(starts, from, t)));
        assert forall|k: int| 0 <= k < times.len() implies {
            let s = #[trigger] section_walk(starts, times)[k];
            &&& s < starts.len()
            &&& s == 0 || starts[s as int] <= times[k]
            &&& s + 1 == starts.len() || starts[s + 1int] > times[k]
        } by {
            if k < prefix.len() {
                assert(w[k] == prev[k]);
                assert(times[k] == prefix[k]);
            }
        }
        assert forall|a: int, b: int| 0 <= a <= b < times.len() implies w[a] <= w[b] by {
            if b < prefix.len() {
                assert(w[a] == prev[a]);
                assert(w[b] == prev[b]);
            } else if a < prefix.len() {
                assert(w[a] == prev[a]);
                assert(prev[a] <= prev[prev.len() - 1]);
            }
        }
    }
}

proof fn lemma_advance_section(starts: Seq<i64>, idx: nat, t: i64)
    requires
        idx < starts.len(),
        idx == 0 || starts[idx as int] <= t,
    ensures
        idx <= advance_section(starts, idx, t) < starts.len(),
        advance_section(starts, idx, t) == 0 || starts[advance_section(starts, idx, t) as int]
            <= t,
        advance_section(starts, idx, t) + 1 == starts.len() || starts[advance_section(
            starts,
            idx,
            t,
        ) + 1int] > t,
    decreases starts.len() - idx,
{
    if idx + 1 < starts.len() && starts[idx + 1int] <= t {
        lemma_advance_section(starts, idx + 1, t);
    }
}

} // verus!
