use vstd::prelude::*;
use vstd::std_specs::iter::IteratorSpec;

verus! {

broadcast use vstd::string::group_string_axioms;

/// Unicode White_Space: the characters that `char::is_whitespace` accepts and that
/// `str::trim` removes.
pub open spec fn is_white_space(c: char) -> bool {
    ||| '\t' <= c <= '\r'
    ||| c == ' '
    ||| c == '\u{85}'
    ||| c == '\u{a0}'
    ||| c == '\u{1680}'
    ||| '\u{2000}' <= c <= '\u{200a}'
    ||| c == '\u{2028}'
    ||| c == '\u{2029}'
    ||| c == '\u{202f}'
    ||| c == '\u{205f}'
    ||| c == '\u{3000}'
}

/// `s` without its leading white space.
pub open spec fn trim_start(s: Seq<char>) -> Seq<char>
    decreases s.len(),
{
    if s.len() > 0 && is_white_space(s[0]) {
        trim_start(s.drop_first())
    } else {
        s
    }
}

/// `s` without its trailing white space.
pub open spec fn trim_end(s: Seq<char>) -> Seq<char>
    decreases s.len(),
{
    if s.len() > 0 && is_white_space(s.last()) {
        trim_end(s.drop_last())
    } else {
        s
    }
}

/// `s` without leading and trailing white space.
pub open spec fn trim(s: Seq<char>) -> Seq<char> {
    trim_end(trim_start(s))
}

/// Index of the first `c` in `s`, or the length of `s` where there is none.
pub open spec fn find_char(s: Seq<char>, c: char) -> nat
    decreases s.len(),
{
    if s.len() == 0 {
        0
    } else if s[0] == c {
        0
    } else {
        1 + find_char(s.drop_first(), c)
    }
}

/// Number of occurrences of `c` in `s`.
pub open spec fn count_char(s: Seq<char>, c: char) -> nat
    decreases s.len(),
{
    if s.len() == 0 {
        0
    } else {
        count_char(s.drop_last(), c) + if s.last() == c {
            1nat
        } else {
            0nat
        }
    }
}

/// `s` without one trailing carriage return.
pub open spec fn strip_cr(s: Seq<char>) -> Seq<char> {
    if s.len() > 0 && s.last() == '\r' {
        s.drop_last()
    } else {
        s
    }
}

/// The lines of `s` as `str::lines` gives them: split after each line feed, the line
/// feed removed and then one carriage return before it; a last line without line feed
/// is kept as it is, and there is no line after a final line feed.
pub open spec fn lines(s: Seq<char>) -> Seq<Seq<char>>
    decreases s.len(),
{
    if s.len() == 0 {
        seq![]
    } else {
        let k = find_char(s, '\n');
        if k >= s.len() {
            seq![s]
        } else {
            seq![strip_cr(s.subrange(0, k as int))] + lines(s.subrange(k + 1int, s.len() as int))
        }
    }
}

pub proof fn lemma_find_char_bound(s: Seq<char>, c: char)
    ensures
        find_char(s, c) <= s.len(),
        find_char(s, c) < s.len() ==> s[find_char(s, c) as int] == c,
        forall|i: int| 0 <= i < find_char(s, c) ==> s[i] != c,
    decreases s.len(),
{
    if s.len() > 0 && s[0] != c {
        lemma_find_char_bound(s.drop_first(), c);
        assert forall|i: int| 0 <= i < find_char(s, c) implies s[i] != c by {
            if i > 0 {
                assert(s[i] == s.drop_first()[i - 1]);
            }
        }
    }
}

/// A `&str` as the sequence of its characters.
pub fn chars_of(s: &str) -> (v: Vec<char>)
    ensures
        v@ == s@,
{
    let mut it = s.chars();
    let mut v: Vec<char> = Vec::new();
    loop
        invariant
            v@ + it.remaining() == s@,
            it.obeys_prophetic_iter_laws(),
        decreases s@.len() - v@.len(),
    {
        let ghost before = it.remaining();
        match it.next() {
            Some(c) => {
                assert(before.len() > 0);
                v.push(c);
                assert(v@ + it.remaining() =~= s@);
            },
            None => {
                assert(v@ =~= s@);
                return v;
            },
        }
    }
}

/// `ls` written one per line, each followed by a line feed.
pub open spec fn with_newlines(ls: Seq<Seq<char>>) -> Seq<char>
    decreases ls.len(),
{
    if ls.len() == 0 {
        seq![]
    } else {
        ls[0] + seq!['\n'] + with_newlines(ls.drop_first())
    }
}

pub proof fn lemma_with_newlines_push(ls: Seq<Seq<char>>, l: Seq<char>)
    ensures
        with_newlines(ls.push(l)) == with_newlines(ls) + l + seq!['\n'],
    decreases ls.len(),
{
    if ls.len() == 0 {
        assert(ls.push(l).drop_first() =~= Seq::<Seq<char>>::empty());
        assert(ls.push(l)[0] == l);
        assert(with_newlines(Seq::<Seq<char>>::empty()) =~= Seq::<char>::empty());
        assert(with_newlines(ls.push(l)) =~= l + seq!['\n']);
        assert(with_newlines(ls) + l + seq!['\n'] =~= l + seq!['\n']);
    } else {
        lemma_with_newlines_push(ls.drop_first(), l);
        assert(ls.push(l).drop_first() =~= ls.drop_first().push(l));
        assert(with_newlines(ls.push(l)) =~= with_newlines(ls) + l + seq!['\n']);
    }
}

pub proof fn lemma_find_char_prefix(a: Seq<char>, b: Seq<char>, c: char)
    requires
        forall|i: int| 0 <= i < a.len() ==> a[i] != c,
        b.len() > 0,
        b[0] == c,
    ensures
        find_char(a + b, c) == a.len(),
    decreases a.len(),
{
    if a.len() == 0 {
        assert(a + b =~= b);
    } else {
        assert((a + b).drop_first() =~= a.drop_first() + b);
        assert((a + b)[0] == a[0]);
        lemma_find_char_prefix(a.drop_first(), b, c);
    }
}

/// Lines written one per line read back as the same lines, where none holds a line feed or
/// ends with a carriage return.
pub proof fn lemma_lines_with_newlines(ls: Seq<Seq<char>>)
    requires
        forall|k: int, i: int| 0 <= k < ls.len() && 0 <= i < ls[k].len() ==> #[trigger] ls[k][i] != '\n',
        forall|k: int| 0 <= k < ls.len() && ls[k].len() > 0 ==> (#[trigger] ls[k]).last() != '\r',
    ensures
        lines(with_newlines(ls)) == ls,
    decreases ls.len(),
{
    if ls.len() == 0 {
        assert(lines(Seq::<char>::empty()) =~= Seq::<Seq<char>>::empty());
    } else {
        let l = ls[0];
        let rest = with_newlines(ls.drop_first());
        let w = with_newlines(ls);
        assert(w =~= l + (seq!['\n'] + rest));
        assert forall|i: int| 0 <= i < l.len() implies l[i] != '\n' by {
            assert(ls[0][i] != '\n');
        }
        lemma_find_char_prefix(l, seq!['\n'] + rest, '\n');
        assert forall|k: int, i: int|
            0 <= k < ls.drop_first().len() && 0 <= i < ls.drop_first()[k].len() implies #[trigger] ls.drop_first()[k][i]
            != '\n' by {
            assert(ls.drop_first()[k] == ls[k + 1]);
        }
        assert forall|k: int|
            0 <= k < ls.drop_first().len() && ls.drop_first()[k].len() > 0 implies (#[trigger] ls.drop_first()[k]).last()
            != '\r' by {
            assert(ls.drop_first()[k] == ls[k + 1]);
        }
        lemma_lines_with_newlines(ls.drop_first());
        assert(w.subrange(0, l.len() as int) =~= l);
        assert(w.subrange(l.len() + 1int, w.len() as int) =~= rest);
        assert(strip_cr(l) == l);
        assert(lines(w) =~= seq![l] + ls.drop_first());
        assert(seq![l] + ls.drop_first() =~= ls);
    }
}

pub proof fn lemma_no_char_no_count(s: Seq<char>, c: char)
    requires
        forall|i: int| 0 <= i < s.len() ==> s[i] != c,
    ensures
        count_char(s, c) == 0,
    decreases s.len(),
{
    if s.len() > 0 {
        assert(s.last() == s[s.len() - 1]);
        lemma_no_char_no_count(s.drop_last(), c);
    }
}

/// Whether `s[from..to]` and `t` are the same characters.
pub fn chars_eq_range(s: &[char], from: usize, to: usize, t: &[char]) -> (r: bool)
    requires
        from <= to <= s@.len(),
    ensures
        r == (s@.subrange(from as int, to as int) == t@),
{
    if to - from != t.len() {
        return false;
    }
    let mut i: usize = 0;
    while i < t.len()
        invariant
            from <= to <= s@.len(),
            to - from == t@.len(),
            i <= t@.len(),
            forall|k: int| 0 <= k < i ==> s@[from + k] == t@[k],
        decreases t@.len() - i,
    {
        if s[from + i] != t[i] {
            assert(s@.subrange(from as int, to as int)[i as int] != t@[i as int]);
            return false;
        }
        i = i + 1;
    }
    assert(s@.subrange(from as int, to as int) =~= t@);
    true
}

} // verus!

verus! {

/// Whether `c` is white space.
pub fn is_white_space_char(c: char) -> (r: bool)
    ensures
        r == is_white_space(c),
{
    ('\t' <= c && c <= '\r') || c == ' ' || c == '\u{85}' || c == '\u{a0}' || c == '\u{1680}' || (
    '\u{2000}' <= c && c <= '\u{200a}') || c == '\u{2028}' || c == '\u{2029}' || c == '\u{202f}'
        || c == '\u{205f}' || c == '\u{3000}'
}

/// Index of the first `c` in `s[from..to]`, or `to` where there is none.
pub fn find_char_in(s: &[char], from: usize, to: usize, c: char) -> (r: usize)
    requires
        from <= to <= s@.len(),
    ensures
        r == from + find_char(s@.subrange(from as int, to as int), c),
        from <= r <= to,
{
    let mut i = from;
    while i < to && s[i] != c
        invariant
            from <= i <= to,
            to <= s@.len(),
            find_char(s@.subrange(from as int, to as int), c) == (i - from) + find_char(
                s@.subrange(i as int, to as int),
                c,
            ),
        decreases to - i,
    {
        let ghost t = s@.subrange(i as int, to as int);
        assert(t.drop_first() =~= s@.subrange(i + 1, to as int));
        assert(t[0] == s@[i as int]);
        i = i + 1;
    }
    proof {
        let t = s@.subrange(i as int, to as int);
        if i < to {
            assert(t[0] == s@[i as int]);
        }
    }
    i
}

/// Number of occurrences of `c` in `s[from..to]`.
pub fn count_char_in(s: &[char], from: usize, to: usize, c: char) -> (r: usize)
    requires
        from <= to <= s@.len(),
    ensures
        r == count_char(s@.subrange(from as int, to as int), c),
{
    let mut i = to;
    let mut n: usize = 0;
    while i > from
        invariant
            from <= i <= to,
            to <= s@.len(),
            n <= to - i,
            count_char(s@.subrange(from as int, to as int), c) == count_char(
                s@.subrange(from as int, i as int),
                c,
            ) + n,
        decreases i - from,
    {
        proof {
            assert(s@.subrange(from as int, i as int).drop_last() =~= s@.subrange(
                from as int,
                i - 1,
            ));
        }
        if s[i - 1] == c {
            n = n + 1;
        }
        i = i - 1;
    }
    assert(s@.subrange(from as int, from as int).len() == 0);
    n
}

/// Bounds of `s[from..to]` without its leading and trailing white space.
pub fn trim_range(s: &[char], from: usize, to: usize) -> (r: (usize, usize))
    requires
        from <= to <= s@.len(),
    ensures
        from <= r.0 <= r.1 <= to,
        s@.subrange(r.0 as int, r.1 as int) == trim(s@.subrange(from as int, to as int)),
{
    let mut a = from;
    while a < to && is_white_space_char(s[a])
        invariant
            from <= a <= to,
            to <= s@.len(),
            trim_start(s@.subrange(from as int, to as int)) == trim_start(
                s@.subrange(a as int, to as int),
            ),
        decreases to - a,
    {
        let ghost t = s@.subrange(a as int, to as int);
        assert(t.drop_first() =~= s@.subrange(a + 1, to as int));
        assert(t[0] == s@[a as int]);
        a = a + 1;
    }
    proof {
        let t = s@.subrange(a as int, to as int);
        if a < to {
            assert(t[0] == s@[a as int]);
        }
        assert(trim_start(t) == t);
    }
    let mut b = to;
    while b > a && is_white_space_char(s[b - 1])
        invariant
            from <= a <= b <= to,
            to <= s@.len(),
            trim_end(s@.subrange(a as int, to as int)) == trim_end(s@.subrange(a as int, b as int)),
        decreases b - a,
    {
        let ghost t = s@.subrange(a as int, b as int);
        assert(t.drop_last() =~= s@.subrange(a as int, b - 1));
        assert(t.last() == s@[b - 1]);
        b = b - 1;
    }
    proof {
        let t = s@.subrange(a as int, b as int);
        if b > a {
            assert(t.last() == s@[b - 1]);
        }
        assert(trim_end(t) == t);
    }
    (a, b)
}

/// The first line of `s[pos..]`: its bounds, and the position where the rest begins.
pub fn next_line(s: &[char], pos: usize) -> (r: (usize, usize, usize))
    requires
        pos < s@.len(),
    ensures
        pos <= r.0 <= r.1 <= r.2 <= s@.len(),
        pos < r.2,
        lines(s@.subrange(pos as int, s@.len() as int)) == seq![
            s@.subrange(r.0 as int, r.1 as int),
        ] + lines(s@.subrange(r.2 as int, s@.len() as int)),
{
    let n = s.len();
    let k = find_char_in(s, pos, n, '\n');
    let ghost t = s@.subrange(pos as int, n as int);
    proof {
        lemma_find_char_bound(t, '\n');
    }
    if k == n {
        assert(s@.subrange(n as int, n as int) =~= Seq::<char>::empty());
        assert(lines(s@.subrange(n as int, n as int)) =~= Seq::<Seq<char>>::empty());
        assert(seq![t] + Seq::<Seq<char>>::empty() =~= seq![t]);
        (pos, n, n)
    } else {
        assert(t.subrange(0, k - pos) =~= s@.subrange(pos as int, k as int));
        assert(t.subrange(k - pos + 1, t.len() as int) =~= s@.subrange(k + 1, n as int));
        let mut end = k;
        if end > pos && s[end - 1] == '\r' {
            assert(s@.subrange(pos as int, k as int).drop_last() =~= s@.subrange(
                pos as int,
                k - 1,
            ));
            end = end - 1;
        }
        (pos, end, k + 1)
    }
}

} // verus!
