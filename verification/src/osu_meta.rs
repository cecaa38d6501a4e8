use crate::text::{
    chars_eq_range, chars_of, find_char, find_char_in, lemma_find_char_bound, lemma_find_char_prefix,
};
use vstd::prelude::*;
use vstd::string::*;

verus! {

/// Whether `line` starts with `prefix`.
pub open spec fn starts_with(line: Seq<char>, prefix: Seq<char>) -> bool {
    prefix.len() <= line.len() && line.subrange(0, prefix.len() as int) == prefix
}

/// The text that follows the first `:` of `line`, up to the next `:` or the line's end;
/// none where the line has no `:`.
pub open spec fn field_value(line: Seq<char>) -> Option<Seq<char>> {
    let k = find_char(line, ':');
    if k >= line.len() {
        None
    } else {
        let rest = line.subrange(k + 1int, line.len() as int);
        Some(rest.subrange(0, find_char(rest, ':') as int))
    }
}

/// The start of the line that holds metadata field `i`: title, creator, difficulty name
/// and beatmap id, in the order in which a `.osu` file lists them.
pub open spec fn meta_prefix(i: nat) -> Seq<char> {
    if i == 0 {
        seq!['T', 'i', 't']
    } else if i == 1 {
        seq!['C', 'r']
    } else if i == 2 {
        seq!['V', 'e', 'r']
    } else {
        seq!['B', 'e', 'a', 't', 'm']
    }
}

/// Scanning lines for the metadata fields: the fields found so far, in order, and whether
/// the scan can go on. The scan looks for one field at a time: the first line that starts
/// with that field's prefix gives its value, the text between the line's first `:` and
/// the next `:` or the line's end.
/// Such a line without `:` stops the scan for good.
pub open spec fn scan_meta(ls: Seq<Seq<char>>) -> (Seq<Seq<char>>, bool)
    decreases ls.len(),
{
    if ls.len() == 0 {
        (seq![], true)
    } else {
        let (fs, ok) = scan_meta(ls.drop_last());
        if !ok {
            (fs, false)
        } else if fs.len() < 4 && starts_with(ls.last(), meta_prefix(fs.len())) {
            match field_value(ls.last()) {
                Some(v) => (fs.push(v), true),
                None => (fs, false),
            }
        } else {
            (fs, true)
        }
    }
}

proof fn lemma_scan_meta_len(ls: Seq<Seq<char>>)
    ensures
        scan_meta(ls).0.len() <= 4,
    decreases ls.len(),
{
    if ls.len() > 0 {
        lemma_scan_meta_len(ls.drop_last());
    }
}

/// Once the scan has stopped, later lines do not restart it.
proof fn lemma_scan_meta_stops(ls: Seq<Seq<char>>, m: int)
    requires
        0 <= m <= ls.len(),
        !scan_meta(ls.take(m)).1,
    ensures
        !scan_meta(ls).1,
    decreases ls.len(),
{
    if m == ls.len() {
        assert(ls.take(m) =~= ls);
    } else {
        assert(ls.drop_last().take(m) =~= ls.take(m));
        lemma_scan_meta_stops(ls.drop_last(), m);
    }
}

/// The scan of lines none of which starts with the title's prefix has found nothing and
/// can go on.
proof fn lemma_scan_meta_before_title(ls: Seq<Seq<char>>)
    requires
        forall|j: int| 0 <= j < ls.len() ==> !starts_with(#[trigger] ls[j], seq!['T', 'i', 't']),
    ensures
        scan_meta(ls) == (Seq::<Seq<char>>::empty(), true),
    decreases ls.len(),
{
    if ls.len() > 0 {
        assert forall|j: int| 0 <= j < ls.drop_last().len() implies !starts_with(
            #[trigger] ls.drop_last()[j],
            seq!['T', 'i', 't'],
        ) by {
            assert(ls.drop_last()[j] == ls[j]);
        }
        lemma_scan_meta_before_title(ls.drop_last());
        assert(ls.last() == ls[ls.len() - 1]);
    }
}

/// Once the title is found, later lines keep it.
proof fn lemma_scan_meta_keeps_first(ls: Seq<Seq<char>>, m: int, x: Seq<char>)
    requires
        0 <= m <= ls.len(),
        scan_meta(ls.take(m)).0.len() >= 1,
        scan_meta(ls.take(m)).0[0] == x,
    ensures
        scan_meta(ls).0.len() >= 1,
        scan_meta(ls).0[0] == x,
    decreases ls.len(),
{
    if m == ls.len() {
        assert(ls.take(m) =~= ls);
    } else {
        assert(ls.drop_last().take(m) =~= ls.take(m));
        lemma_scan_meta_keeps_first(ls.drop_last(), m, x);
    }
}

/// The title is the value of the first line that starts with `Tit`: where that line is
/// `Title:` followed by a text `x` without `:`, the title is `x`, whatever lines come
/// before it or after it.
pub proof fn law_title_from_first_title_line(ls: Seq<Seq<char>>, k: int, x: Seq<char>)
    requires
        0 <= k < ls.len(),
        ls[k] == seq!['T', 'i', 't', 'l', 'e', ':'] + x,
        forall|i: int| 0 <= i < x.len() ==> x[i] != ':',
        forall|j: int| 0 <= j < k ==> !starts_with(#[trigger] ls[j], seq!['T', 'i', 't']),
    ensures
        scan_meta(ls).0.len() >= 1,
        scan_meta(ls).0[0] == x,
{
    let before = ls.take(k);
    assert forall|j: int| 0 <= j < before.len() implies !starts_with(
        #[trigger] before[j],
        seq!['T', 'i', 't'],
    ) by {
        assert(before[j] == ls[j]);
    }
    lemma_scan_meta_before_title(before);
    let upto = ls.take(k + 1);
    assert(upto.drop_last() =~= before);
    assert(upto.last() == ls[k]);
    let line = ls[k];
    let head = seq!['T', 'i', 't', 'l', 'e'];
    assert(line =~= head + (seq![':'] + x));
    lemma_find_char_prefix(head, seq![':'] + x, ':');
    let rest = line.subrange(6, line.len() as int);
    assert(rest =~= x);
    lemma_find_char_bound(x, ':');
    assert(find_char(x, ':') == x.len());
    assert(x.subrange(0, x.len() as int) =~= x);
    assert(line.subrange(0, 3) =~= seq!['T', 'i', 't']);
    assert(field_value(line) == Some(x));
    assert(scan_meta(upto).0 =~= seq![x]);
    lemma_scan_meta_keeps_first(ls, k + 1, x);
}

/// Field `i` of the found fields, empty where it was not found.
pub open spec fn field_or_empty(fs: Seq<Seq<char>>, i: int) -> Seq<char> {
    if i < fs.len() {
        fs[i]
    } else {
        seq![]
    }
}

/// The metadata of a beatmap as its `.osu` file gives it.
pub struct OsuMetadata {
    pub title: String,
    pub creator: String,
    pub version: String,
    pub beatmap_id: String,
    pub beatmap_set_id: String,
}

/// Reads title, creator, difficulty name and beatmap id from the lines of a `.osu` file;
/// a field that is not found is empty. The beatmap set id is not read and stays empty.
///
/// Returns `None` exactly where a line chosen for a field has no `:` to take the value
/// after.
pub fn scan_osu_metadata(lines: &[String]) -> (r: Option<OsuMetadata>)
    ensures
        r is Some <==> scan_meta(lines@.map_values(|l: String| l@)).1,
        r matches Some(m) ==> {
            let fs = scan_meta(lines@.map_values(|l: String| l@)).0;
            &&& m.title@ == field_or_empty(fs, 0)
            &&& m.creator@ == field_or_empty(fs, 1)
            &&& m.version@ == field_or_empty(fs, 2)
            &&& m.beatmap_id@ == field_or_empty(fs, 3)
            &&& m.beatmap_set_id@ == Seq::<char>::empty()
        },
{
    let ghost ls = lines@.map_values(|l: String| l@);
    let prefixes: Vec<Vec<char>> = vec![
        chars_of("Tit"),
        chars_of("Cr"),
        chars_of("Ver"),
        chars_of("Beatm"),
    ];
    proof {
        reveal_strlit("Tit");
        reveal_strlit("Cr");
        reveal_strlit("Ver");
        reveal_strlit("Beatm");
    }
    let mut found: Vec<String> = Vec::new();
    let mut i: usize = 0;
    assert(ls.take(0) =~= Seq::<Seq<char>>::empty());
    while i < lines.len()
        invariant
            ls == lines@.map_values(|l: String| l@),
            i <= lines@.len(),
            prefixes@.len() == 4,
            forall|k: int| 0 <= k < 4 ==> (#[trigger] prefixes@[k])@ == meta_prefix(k as nat),
            scan_meta(ls.take(i as int)).1,
            found@.len() == scan_meta(ls.take(i as int)).0.len(),
            forall|k: int|
                0 <= k < found@.len() ==> (#[trigger] found@[k])@ == scan_meta(ls.take(i as int)).0[k],
        decreases lines@.len() - i,
    {
        let line = lines[i].as_str();
        let cs = chars_of(line);
        let n = cs.len();
        let ghost prev = ls.take(i as int);
        let ghost next = ls.take(i + 1);
        assert(next.drop_last() =~= prev);
        assert(next.last() == cs@);
        proof {
            lemma_scan_meta_len(prev);
        }
        if found.len() < 4 {
            let p = &prefixes[found.len()];
            let matches_prefix = p.len() <= n && chars_eq_range(&cs, 0, p.len(), p);
            assert(matches_prefix == starts_with(cs@, meta_prefix(found@.len() as nat)));
            if matches_prefix {
                let k = find_char_in(&cs, 0, n, ':');
                assert(cs@.subrange(0, n as int) =~= cs@);
                proof {
                    lemma_find_char_bound(cs@, ':');
                }
                if k == n {
                    proof {
                        lemma_scan_meta_stops(ls, i + 1);
                    }
                    return None;
                }
                let e = find_char_in(&cs, k + 1, n, ':');
                let ghost rest = cs@.subrange(k + 1, n as int);
                proof {
                    lemma_find_char_bound(rest, ':');
                }
                assert(rest.subrange(0, e - k - 1) =~= cs@.subrange(k + 1, e as int));
                let v = String::from_str(line.substring_char(k + 1, e));
                found.push(v);
            }
        }
        i = i + 1;
    }
    assert(ls.take(lines@.len() as int) =~= ls);
    proof {
        lemma_scan_meta_len(ls);
    }
    let mut fields: Vec<String> = Vec::new();
    let mut j: usize = 0;
    while j < 4
        invariant
            j <= 4,
            fields@.len() == j,
            found@.len() <= 4,
            forall|k: int|
                0 <= k < j ==> (#[trigger] fields@[k])@ == if k < found@.len() {
                    found@[k]@
                } else {
                    Seq::<char>::empty()
                },
        decreases 4 - j,
    {
        if j < found.len() {
            fields.push(found[j].clone());
        } else {
            fields.push(String::new());
        }
        j = j + 1;
    }
    let beatmap_id = fields.pop().unwrap();
    let version = fields.pop().unwrap();
    let creator = fields.pop().unwrap();
    let title = fields.pop().unwrap();
    Some(OsuMetadata { title, creator, version, beatmap_id, beatmap_set_id: String::new() })
}

} // verus!
