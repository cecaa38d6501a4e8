use crate::text::{
    chars_eq_range, chars_of, count_char, count_char_in, find_char, find_char_in, is_white_space,
    lemma_find_char_bound, lemma_no_char_no_count, lines, next_line, trim, trim_end, trim_range,
    trim_start, with_newlines,
};
use vstd::prelude::*;
use vstd::string::*;

verus! {

/// The key and the value of an options line: a line that does not start with `/` and holds
/// exactly one `=`; both are taken without white space around them.
pub open spec fn option_entry(line: Seq<char>) -> Option<(Seq<char>, Seq<char>)> {
    if line.len() > 0 && line[0] == '/' {
        None
    } else if count_char(line, '=') != 1 {
        None
    } else {
        let k = find_char(line, '=');
        Some((trim(line.subrange(0, k as int)), trim(line.subrange(k + 1int, line.len() as int))))
    }
}

/// The value that the last line with the key `key` gives, if any line has it.
pub open spec fn last_value(ls: Seq<Seq<char>>, key: Seq<char>) -> Option<Seq<char>>
    decreases ls.len(),
{
    if ls.len() == 0 {
        None
    } else {
        match option_entry(ls.last()) {
            Some((k, v)) => if k == key {
                Some(v)
            } else {
                last_value(ls.drop_last(), key)
            },
            None => last_value(ls.drop_last(), key),
        }
    }
}

/// The raw values of an options configuration file; the numbers stay text here.
pub struct OptionsText {
    /// The songs folder; empty when the file names none.
    pub file_path: String,
    /// The text given for the stream distance, if any.
    pub stream_distance: Option<String>,
    /// The text given for the jump distance, if any.
    pub jump_distance: Option<String>,
}

/// The characters of an optional string.
pub open spec fn opt_chars(o: Option<String>) -> Option<Seq<char>> {
    match o {
        Some(s) => Some(s@),
        None => None,
    }
}

pub open spec fn file_path_key() -> Seq<char> {
    "FilePath"@
}

pub open spec fn stream_distance_key() -> Seq<char> {
    "StreamDistance"@
}

pub open spec fn jump_distance_key() -> Seq<char> {
    "JumpDistance"@
}

/// The options that the lines of `text` give.
pub open spec fn options_of(text: Seq<char>, r: OptionsText) -> bool {
    &&& r.file_path@ == match last_value(lines(text), file_path_key()) {
        Some(v) => v,
        None => Seq::<char>::empty(),
    }
    &&& opt_chars(r.stream_distance) == last_value(lines(text), stream_distance_key())
    &&& opt_chars(r.jump_distance) == last_value(lines(text), jump_distance_key())
}

proof fn lemma_keys_distinct()
    ensures
        file_path_key() != stream_distance_key(),
        file_path_key() != jump_distance_key(),
        stream_distance_key() != jump_distance_key(),
{
    reveal_strlit("FilePath");
    reveal_strlit("StreamDistance");
    reveal_strlit("JumpDistance");
    assert(file_path_key().len() == 8);
    assert(stream_distance_key().len() == 14);
    assert(jump_distance_key().len() == 12);
}

/// Key and value bounds of the options line `s[ls..le]`, if it is one.
fn option_entry_range(s: &[char], ls: usize, le: usize) -> (r: Option<(usize, usize, usize, usize)>)
    requires
        ls <= le <= s@.len(),
    ensures
        r matches Some((ka, kb, va, vb)) ==> ka <= kb <= s@.len() && va <= vb <= s@.len(),
        match r {
            Some((ka, kb, va, vb)) => option_entry(s@.subrange(ls as int, le as int)) == Some(
                (s@.subrange(ka as int, kb as int), s@.subrange(va as int, vb as int)),
            ),
            None => option_entry(s@.subrange(ls as int, le as int)) is None,
        },
{
    let ghost line = s@.subrange(ls as int, le as int);
    if le > ls && s[ls] == '/' {
        assert(line[0] == s@[ls as int]);
        return None;
    }
    if count_char_in(s, ls, le, '=') != 1 {
        return None;
    }
    let k = find_char_in(s, ls, le, '=');
    proof {
        lemma_find_char_bound(line, '=');
        if k == le {
            lemma_no_char_no_count(line, '=');
        }
    }
    assert(line.subrange(k - ls + 1, line.len() as int) =~= s@.subrange(k + 1, le as int));
    assert(line.subrange(0, k - ls) =~= s@.subrange(ls as int, k as int));
    let (ka, kb) = trim_range(s, ls, k);
    let (va, vb) = trim_range(s, k + 1, le);
    Some((ka, kb, va, vb))
}

/// Reads an options configuration file: for each key, the value of the last line that
/// sets it.
pub fn parse_options_config(contents: &str) -> (r: OptionsText)
    ensures
        options_of(contents@, r),
{
    let s = chars_of(contents);
    let n = s.len();
    let file_key = chars_of("FilePath");
    let stream_key = chars_of("StreamDistance");
    let jump_key = chars_of("JumpDistance");
    let mut file_path: Option<String> = None;
    let mut stream: Option<String> = None;
    let mut jump: Option<String> = None;
    let mut pos: usize = 0;
    let ghost mut done: Seq<Seq<char>> = seq![];
    assert(s@.subrange(0, n as int) =~= s@);
    assert(Seq::<Seq<char>>::empty() + lines(s@) =~= lines(s@));
    while pos < n
        invariant
            n == s@.len(),
            s@ == contents@,
            pos <= n,
            file_key@ == file_path_key(),
            stream_key@ == stream_distance_key(),
            jump_key@ == jump_distance_key(),
            done + lines(s@.subrange(pos as int, n as int)) == lines(s@),
            opt_chars(file_path) == last_value(done, file_path_key()),
            opt_chars(stream) == last_value(done, stream_distance_key()),
            opt_chars(jump) == last_value(done, jump_distance_key()),
        decreases n - pos,
    {
        let (ls, le, nx) = next_line(&s, pos);
        let ghost line = s@.subrange(ls as int, le as int);
        let ghost rest = lines(s@.subrange(nx as int, n as int));
        assert(done.push(line) + rest =~= done + (seq![line] + rest));
        assert(done.push(line).drop_last() =~= done);
        assert(done.push(line).last() == line);
        proof {
            lemma_keys_distinct();
        }
        match option_entry_range(&s, ls, le) {
            Some((ka, kb, va, vb)) => {
                if chars_eq_range(&s, ka, kb, &file_key) {
                    file_path = Some(String::from_str(contents.substring_char(va, vb)));
                } else if chars_eq_range(&s, ka, kb, &stream_key) {
                    stream = Some(String::from_str(contents.substring_char(va, vb)));
                } else if chars_eq_range(&s, ka, kb, &jump_key) {
                    jump = Some(String::from_str(contents.substring_char(va, vb)));
                }
            },
            None => {},
        }
        proof {
            done = done.push(line);
        }
        pos = nx;
    }
    assert(s@.subrange(n as int, n as int) =~= Seq::<char>::empty());
    assert(lines(s@.subrange(n as int, n as int)) =~= Seq::<Seq<char>>::empty());
    assert(done =~= lines(s@));
    let file_path = match file_path {
        Some(p) => p,
        None => String::new(),
    };
    OptionsText { file_path, stream_distance: stream, jump_distance: jump }
}

pub open spec fn options_line_1() -> Seq<char> {
    "//---CHANGING ANYTHING IN THIS FILE WILL RESULT IN A FULL DATA RECALCULATION!!!---"@
}

pub open spec fn options_line_2() -> Seq<char> {
    "//You can change the value used to calculate streams which by default is less than 16 pixels edge to edge."@
}

pub open spec fn options_line_3() -> Seq<char> {
    "//You can change the value used to calculate jumps which by default is greater than 110 pixels edge to edge."@
}

pub open spec fn options_line_4() -> Seq<char> {
    "Defaults: [FilePath=\"\", StreamDistance=16, JumpDistance=110]  (entering wrong value or type of value will load a default instead)"@
}

pub open spec fn options_line_5() -> Seq<char> {
    "FilePath="@
}

pub open spec fn options_line_6() -> Seq<char> {
    "StreamDistance=16.0"@
}

pub open spec fn options_line_7() -> Seq<char> {
    "JumpDistance=110.0"@
}

/// The lines of the options configuration file written when there is none.
pub open spec fn default_options_lines() -> Seq<Seq<char>> {
    seq![
        options_line_1(),
        options_line_2(),
        options_line_3(),
        options_line_4(),
        options_line_5(),
        options_line_6(),
        options_line_7(),
    ]
}

/// The text of the options configuration file written when there is none.
pub open spec fn default_options_text() -> Seq<char> {
    with_newlines(default_options_lines())
}

/// Writes the options configuration file that is used when there is none.
pub fn default_options_config_text() -> (r: String)
    ensures
        r@ == default_options_text(),
{
    proof {
        reveal_strlit("\n");
    }
    let mut out = String::new();
    out.append("//---CHANGING ANYTHING IN THIS FILE WILL RESULT IN A FULL DATA RECALCULATION!!!---");
    out.append("\n");
    out.append("//You can change the value used to calculate streams which by default is less than 16 pixels edge to edge.");
    out.append("\n");
    out.append("//You can change the value used to calculate jumps which by default is greater than 110 pixels edge to edge.");
    out.append("\n");
    out.append("Defaults: [FilePath=\"\", StreamDistance=16, JumpDistance=110]  (entering wrong value or type of value will load a default instead)");
    out.append("\n");
    out.append("FilePath=");
    out.append("\n");
    out.append("StreamDistance=16.0");
    out.append("\n");
    out.append("JumpDistance=110.0");
    out.append("\n");
    proof {
        let ls = default_options_lines();
        reveal_with_fuel(with_newlines, 8);
        assert(ls.drop_first() =~= seq![options_line_2(), options_line_3(), options_line_4(), options_line_5(), options_line_6(), options_line_7()]);
        assert(ls.drop_first().drop_first() =~= seq![options_line_3(), options_line_4(), options_line_5(), options_line_6(), options_line_7()]);
        assert(ls.drop_first().drop_first().drop_first() =~= seq![options_line_4(), options_line_5(), options_line_6(), options_line_7()]);
        assert(ls.drop_first().drop_first().drop_first().drop_first() =~= seq![options_line_5(), options_line_6(), options_line_7()]);
        assert(ls.drop_first().drop_first().drop_first().drop_first().drop_first() =~= seq![options_line_6(), options_line_7()]);
        assert(ls.drop_first().drop_first().drop_first().drop_first().drop_first().drop_first() =~= seq![options_line_7()]);
        assert(ls.drop_first().drop_first().drop_first().drop_first().drop_first().drop_first().drop_first() =~= Seq::<Seq<char>>::empty());
        assert(out@ =~= default_options_text());
    }
    out
}

proof fn lemma_two_chars(s: Seq<char>, i: int, j: int, c: char)
    requires
        0 <= i < j < s.len(),
        s[i] == c,
        s[j] == c,
    ensures
        count_char(s, c) >= 2,
    decreases s.len(),
{
    if j == s.len() - 1 {
        lemma_one_char(s.drop_last(), i, c);
        assert(s.last() == c);
    } else {
        assert(s.drop_last()[i] == c && s.drop_last()[j] == c);
        lemma_two_chars(s.drop_last(), i, j, c);
    }
}

proof fn lemma_one_char(s: Seq<char>, i: int, c: char)
    requires
        0 <= i < s.len(),
        s[i] == c,
    ensures
        count_char(s, c) >= 1,
    decreases s.len(),
{
    if i < s.len() - 1 {
        assert(s.drop_last()[i] == c);
        lemma_one_char(s.drop_last(), i, c);
    }
}

proof fn lemma_entry_line(key: Seq<char>, value: Seq<char>, line: Seq<char>)
    requires
        line == key + seq!['='] + value,
        key.len() > 0,
        key[0] != '/',
        forall|i: int| 0 <= i < key.len() ==> key[i] != '=',
        forall|i: int| 0 <= i < value.len() ==> value[i] != '=',
        trim(key) == key,
        trim(value) == value,
    ensures
        option_entry(line) == Some((key, value)),
{
    crate::text::lemma_find_char_prefix(key, seq!['='] + value, '=');
    assert(line =~= key + (seq!['='] + value));
    assert(line[0] == key[0]);
    assert forall|i: int| 0 <= i < line.len() && line[i] == '=' implies i == key.len() by {
        if i < key.len() {
            assert(line[i] == key[i]);
        } else if i > key.len() {
            assert(line[i] == value[i - key.len() - 1]);
        }
    }
    lemma_count_single(line, key.len() as int, '=');
    assert(line.subrange(0, key.len() as int) =~= key);
    assert(line.subrange(key.len() + 1int, line.len() as int) =~= value);
}

proof fn lemma_count_single(s: Seq<char>, k: int, c: char)
    requires
        0 <= k < s.len(),
        s[k] == c,
        forall|i: int| 0 <= i < s.len() && s[i] == c ==> i == k,
    ensures
        count_char(s, c) == 1,
    decreases s.len(),
{
    if k == s.len() - 1 {
        assert(s.last() == c);
        assert forall|i: int| 0 <= i < s.drop_last().len() implies s.drop_last()[i] != c by {
            assert(s.drop_last()[i] == s[i]);
        }
        lemma_no_char_no_count(s.drop_last(), c);
    } else {
        assert(s.last() != c) by {
            assert(s.last() == s[s.len() - 1]);
        }
        assert forall|i: int| 0 <= i < s.drop_last().len() && s.drop_last()[i] == c implies i == k by {
            assert(s.drop_last()[i] == s[i]);
        }
        lemma_count_single(s.drop_last(), k, c);
    }
}

/// The value of line `k` is the last one for `key` where no later line sets `key`.
proof fn lemma_last_value_at(ls: Seq<Seq<char>>, key: Seq<char>, k: int, v: Seq<char>)
    requires
        0 <= k < ls.len(),
        option_entry(ls[k]) == Some((key, v)),
        forall|j: int|
            k < j < ls.len() ==> option_entry(#[trigger] ls[j]) is None || option_entry(ls[j]).unwrap().0
                != key,
    ensures
        last_value(ls, key) == Some(v),
    decreases ls.len(),
{
    assert(ls.last() == ls[ls.len() - 1]);
    if k < ls.len() - 1 {
        assert forall|j: int|
            k < j < ls.drop_last().len() implies option_entry(#[trigger] ls.drop_last()[j]) is None
                || option_entry(ls.drop_last()[j]).unwrap().0 != key by {
            assert(ls.drop_last()[j] == ls[j]);
        }
        assert(ls.drop_last()[k] == ls[k]);
        lemma_last_value_at(ls.drop_last(), key, k, v);
    }
}

/// A value without white space at its ends reads back as it is written: the line
/// `key=v`, as key one of `FilePath`, `StreamDistance` and `JumpDistance` and as value any
/// text `v` without `=`, sets that option to exactly `v` where no later line sets it.
pub proof fn law_option_value_reads_back(
    text: Seq<char>,
    r: OptionsText,
    key: Seq<char>,
    k: int,
    v: Seq<char>,
)
    requires
        options_of(text, r),
        key == "FilePath"@ || key == "StreamDistance"@ || key == "JumpDistance"@,
        0 <= k < lines(text).len(),
        lines(text)[k] == key + seq!['='] + v,
        forall|i: int| 0 <= i < v.len() ==> v[i] != '=',
        v.len() > 0 ==> !is_white_space(v[0]) && !is_white_space(v.last()),
        forall|j: int|
            k < j < lines(text).len() ==> option_entry(#[trigger] lines(text)[j]) is None
                || option_entry(lines(text)[j]).unwrap().0 != key,
    ensures
        key == "FilePath"@ ==> r.file_path@ == v,
        key == "StreamDistance"@ ==> opt_chars(r.stream_distance) == Some(v),
        key == "JumpDistance"@ ==> opt_chars(r.jump_distance) == Some(v),
{
    reveal_strlit("FilePath");
    reveal_strlit("StreamDistance");
    reveal_strlit("JumpDistance");
    assert(trim_start(v) == v);
    assert(trim_end(v) == v);
    assert(trim(key) == key) by {
        assert(trim_start(key) == key);
        assert(trim_end(key) == key);
    }
    lemma_entry_line(key, v, lines(text)[k]);
    lemma_last_value_at(lines(text), key, k, v);
}

/// Reading back the options configuration file written when there is none gives no songs
/// folder, `16.0` as stream distance and `110.0` as jump distance: the defaults.
pub proof fn law_default_options_roundtrip(r: OptionsText)
    requires
        options_of(default_options_text(), r),
    ensures
        r.file_path@ == Seq::<char>::empty(),
        opt_chars(r.stream_distance) == Some("16.0"@),
        opt_chars(r.jump_distance) == Some("110.0"@),
{
    reveal_strlit("//---CHANGING ANYTHING IN THIS FILE WILL RESULT IN A FULL DATA RECALCULATION!!!---");
    reveal_strlit("//You can change the value used to calculate streams which by default is less than 16 pixels edge to edge.");
    reveal_strlit("//You can change the value used to calculate jumps which by default is greater than 110 pixels edge to edge.");
    reveal_strlit("Defaults: [FilePath=\"\", StreamDistance=16, JumpDistance=110]  (entering wrong value or type of value will load a default instead)");
    reveal_strlit("FilePath=");
    reveal_strlit("StreamDistance=16.0");
    reveal_strlit("JumpDistance=110.0");
    reveal_strlit("FilePath");
    reveal_strlit("StreamDistance");
    reveal_strlit("JumpDistance");
    reveal_strlit("16.0");
    reveal_strlit("110.0");
    let ls = default_options_lines();
    assert forall|k: int, i: int| 0 <= k < ls.len() && 0 <= i < ls[k].len() implies #[trigger] ls[k][i]
        != '\n' by {
        if k == 0 {
            assert(ls[k] == options_line_1());
        } else if k == 1 {
            assert(ls[k] == options_line_2());
        } else if k == 2 {
            assert(ls[k] == options_line_3());
        } else if k == 3 {
            assert(ls[k] == options_line_4());
        } else if k == 4 {
            assert(ls[k] == options_line_5());
        } else if k == 5 {
            assert(ls[k] == options_line_6());
        } else {
            assert(ls[k] == options_line_7());
        }
    }
    assert forall|k: int| 0 <= k < ls.len() && ls[k].len() > 0 implies (#[trigger] ls[k]).last() != '\r' by {
        if k == 0 {
            assert(ls[k] == options_line_1());
        } else if k == 1 {
            assert(ls[k] == options_line_2());
        } else if k == 2 {
            assert(ls[k] == options_line_3());
        } else if k == 3 {
            assert(ls[k] == options_line_4());
        } else if k == 4 {
            assert(ls[k] == options_line_5());
        } else if k == 5 {
            assert(ls[k] == options_line_6());
        } else {
            assert(ls[k] == options_line_7());
        }
    }
    crate::text::lemma_lines_with_newlines(ls);
    let empty: Seq<char> = seq![];
    assert(trim(empty) == empty);
    assert(options_line_5() =~= file_path_key() + seq!['='] + empty);
    assert(options_line_6() =~= stream_distance_key() + seq!['='] + "16.0"@);
    assert(options_line_7() =~= jump_distance_key() + seq!['='] + "110.0"@);
    lemma_entry_line(file_path_key(), empty, options_line_5());
    lemma_entry_line(stream_distance_key(), "16.0"@, options_line_6());
    lemma_entry_line(jump_distance_key(), "110.0"@, options_line_7());
    lemma_two_chars(options_line_4(), 19, 38, '=');
    assert(option_entry(options_line_1()) is None);
    assert(option_entry(options_line_2()) is None);
    assert(option_entry(options_line_3()) is None);
    assert(option_entry(options_line_4()) is None);
    lemma_keys_distinct();
    let l6 = ls.drop_last();
    let l5 = l6.drop_last();
    let l4 = l5.drop_last();
    let l3 = l4.drop_last();
    let l2 = l3.drop_last();
    let l1 = l2.drop_last();
    let l0 = l1.drop_last();
    assert(ls.last() == options_line_7());
    assert(l6.last() == options_line_6());
    assert(l5.last() == options_line_5());
    assert(l4.last() == options_line_4());
    assert(l3.last() == options_line_3());
    assert(l2.last() == options_line_2());
    assert(l1.last() == options_line_1());
    assert(l0.len() == 0);
    assert(last_value(l0, file_path_key()) is None);
    assert(last_value(l1, file_path_key()) is None);
    assert(last_value(l2, file_path_key()) is None);
    assert(last_value(l3, file_path_key()) is None);
    assert(last_value(l4, file_path_key()) is None);
    assert(last_value(l5, file_path_key()) == Some(empty));
    assert(last_value(l6, file_path_key()) == Some(empty));
    assert(last_value(ls, file_path_key()) == Some(empty));
    assert(last_value(l6, stream_distance_key()) == Some("16.0"@));
    assert(last_value(ls, stream_distance_key()) == Some("16.0"@));
    assert(last_value(ls, jump_distance_key()) == Some("110.0"@));
}

} // verus!
