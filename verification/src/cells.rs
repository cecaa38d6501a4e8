use crate::columns::FullDataEnum;
use vstd::prelude::*;
use vstd::string::*;
use vstd::utf8::encode_utf8;

verus! {

/// The decimal digit for `d < 10`.
pub open spec fn digit_char(d: nat) -> char {
    ('0' as u8 + d) as char
}

/// The decimal digits of `n`, most significant first, without leading zeros.
pub open spec fn digits(n: nat) -> Seq<char>
    decreases n,
{
    if n < 10 {
        seq![digit_char(n)]
    } else {
        digits(n / 10).push(digit_char(n % 10))
    }
}

/// `i` written in decimal as `Display` writes integers: a `-` before negative numbers.
pub open spec fn decimal(i: int) -> Seq<char> {
    if i < 0 {
        seq!['-'] + digits((-i) as nat)
    } else {
        digits(i as nat)
    }
}

/// The number that the decimal digits `s` stand for, most significant first.
pub open spec fn digits_value(s: Seq<char>) -> int
    decreases s.len(),
{
    if s.len() == 0 {
        0
    } else {
        digits_value(s.drop_last()) * 10 + (s.last() as int - '0' as int)
    }
}

/// The number that the text `s` stands for: a `-` and the digits of its absolute value,
/// or its digits alone.
pub open spec fn decimal_value(s: Seq<char>) -> int {
    if s.len() > 0 && s[0] == '-' {
        -digits_value(s.drop_first())
    } else {
        digits_value(s)
    }
}

/// Whether every character of `s` is a decimal digit.
pub open spec fn all_digits(s: Seq<char>) -> bool {
    forall|i: int| 0 <= i < s.len() ==> '0' <= #[trigger] s[i] <= '9'
}

/// The digits of `n` read back as `n`: they are decimal digits, at least one, and the
/// first is `0` only for `0` itself.
pub proof fn law_digits_read_back(n: nat)
    ensures
        digits(n).len() >= 1,
        all_digits(digits(n)),
        digits_value(digits(n)) == n,
        digits(n)[0] == '0' ==> n == 0,
    decreases n,
{
    if n < 10 {
        assert(digits(n).drop_last() =~= Seq::<char>::empty());
        assert(digits(n).last() as int - '0' as int == n);
        assert(digits_value(Seq::<char>::empty()) == 0);
    } else {
        law_digits_read_back(n / 10);
        let d = digits(n);
        assert(d.drop_last() =~= digits(n / 10));
        assert(d.last() as int - '0' as int == n % 10);
        assert(n == (n / 10) * 10 + n % 10);
        assert(digits_value(d) == digits_value(digits(n / 10)) * 10 + n % 10);
        assert(d[0] == digits(n / 10)[0]);
        assert forall|i: int| 0 <= i < d.len() implies '0' <= #[trigger] d[i] <= '9' by {
            if i < d.len() - 1 {
                assert(d[i] == digits(n / 10)[i]);
            }
        }
    }
}

/// An integer written in decimal reads back as the same integer: a `-` before it exactly
/// where it is negative, then decimal digits.
pub proof fn law_decimal_reads_back(i: int)
    ensures
        decimal_value(decimal(i)) == i,
        decimal(i)[0] == '-' <==> i < 0,
        all_digits(if i < 0 {
            decimal(i).drop_first()
        } else {
            decimal(i)
        }),
{
    if i < 0 {
        law_digits_read_back((-i) as nat);
        assert(decimal(i).drop_first() =~= digits((-i) as nat));
    } else {
        law_digits_read_back(i as nat);
    }
}

fn digit_str(d: u64) -> (r: &'static str)
    requires
        d < 10,
    ensures
        r@ == seq![digit_char(d as nat)],
{
    match d {
        0 => {
            proof {
                reveal_strlit("0");
            }
            "0"
        },
        1 => {
            proof {
                reveal_strlit("1");
            }
            "1"
        },
        2 => {
            proof {
                reveal_strlit("2");
            }
            "2"
        },
        3 => {
            proof {
                reveal_strlit("3");
            }
            "3"
        },
        4 => {
            proof {
                reveal_strlit("4");
            }
            "4"
        },
        5 => {
            proof {
                reveal_strlit("5");
            }
            "5"
        },
        6 => {
            proof {
                reveal_strlit("6");
            }
            "6"
        },
        7 => {
            proof {
                reveal_strlit("7");
            }
            "7"
        },
        8 => {
            proof {
                reveal_strlit("8");
            }
            "8"
        },
        _ => {
            proof {
                reveal_strlit("9");
            }
            "9"
        },
    }
}

fn push_digits(out: &mut String, n: u64)
    ensures
        final(out)@ == old(out)@ + digits(n as nat),
    decreases n,
{
    if n >= 10 {
        push_digits(out, n / 10);
        out.append(digit_str(n % 10));
        assert(final(out)@ =~= old(out)@ + digits(n as nat));
    } else {
        out.append(digit_str(n));
    }
}

/// `i` written in decimal.
pub fn format_integer(i: i64) -> (r: String)
    ensures
        r@ == decimal(i as int),
{
    let mut out = String::new();
    if i < 0 {
        proof {
            reveal_strlit("-");
        }
        out.append("-");
        let m: u64 = if i == i64::MIN {
            9223372036854775808u64
        } else {
            (-i) as u64
        };
        push_digits(&mut out, m);
    } else {
        push_digits(&mut out, i as u64);
    }
    out
}

/// The text columns of a beatmap's results.
pub struct CellTexts {
    pub title: String,
    pub version: String,
    pub beatmap_id: String,
    pub beatmap_set_id: String,
    pub creator: String,
    pub md5: String,
}

/// The integer columns of a beatmap's results.
pub struct CellNumbers {
    pub bpm: i32,
    pub playable_length: i32,
    pub longest_stream: u32,
    pub streams100: u32,
    pub avg_jump_distance: u32,
    pub avg_jump_speed: u32,
}

/// A spreadsheet formula that links to `prefix` followed by the beatmap id, where the id
/// is longer than one byte; empty otherwise.
pub open spec fn hyperlink_cell(prefix: Seq<char>, id: Seq<char>) -> Seq<char> {
    if encode_utf8(id).len() > 1 {
        "=HYPERLINK(\""@ + prefix + id + "\")"@
    } else {
        seq![]
    }
}

/// The link to a beatmap's page on the osu! website.
pub open spec fn web_link_prefix() -> Seq<char> {
    "https://osu.ppy.sh/b/"@
}

/// The link that opens a beatmap in the osu! client.
pub open spec fn direct_link_prefix() -> Seq<char> {
    "osu://b/"@
}

/// The cell of column `c` where it is text or a whole number; none for the columns that
/// hold decimal numbers.
pub open spec fn plain_cell(c: FullDataEnum, t: CellTexts, n: CellNumbers) -> Option<Seq<char>> {
    match c {
        FullDataEnum::Title => Some(t.title@),
        FullDataEnum::DifName => Some(t.version@),
        FullDataEnum::MapID => Some(t.beatmap_id@),
        FullDataEnum::MapSetID => Some(t.beatmap_set_id@),
        FullDataEnum::Creator => Some(t.creator@),
        FullDataEnum::MD5 => Some(t.md5@),
        FullDataEnum::BPM => Some(decimal(n.bpm as int)),
        FullDataEnum::PlayableLength => Some(decimal(n.playable_length as int)),
        FullDataEnum::LongestStream => Some(decimal(n.longest_stream as int)),
        FullDataEnum::Streams100 => Some(decimal(n.streams100 as int)),
        FullDataEnum::AvgJumpsDistance => Some(decimal(n.avg_jump_distance as int)),
        FullDataEnum::AvgJumpsSpeed => Some(decimal(n.avg_jump_speed as int)),
        FullDataEnum::OsuWebLink => Some(hyperlink_cell(web_link_prefix(), t.beatmap_id@)),
        FullDataEnum::OsuDirect => Some(hyperlink_cell(direct_link_prefix(), t.beatmap_id@)),
        _ => None,
    }
}

/// Each text column shows the field of its own name, each whole-number column reads back
/// as the number of its own name, and both link columns lead to the beatmap id.
pub proof fn law_cells_show_their_own_fields(t: CellTexts, n: CellNumbers)
    ensures
        plain_cell(FullDataEnum::Title, t, n) == Some(t.title@),
        plain_cell(FullDataEnum::DifName, t, n) == Some(t.version@),
        plain_cell(FullDataEnum::MapID, t, n) == Some(t.beatmap_id@),
        plain_cell(FullDataEnum::MapSetID, t, n) == Some(t.beatmap_set_id@),
        plain_cell(FullDataEnum::Creator, t, n) == Some(t.creator@),
        plain_cell(FullDataEnum::MD5, t, n) == Some(t.md5@),
        decimal_value(plain_cell(FullDataEnum::BPM, t, n).unwrap()) == n.bpm,
        decimal_value(plain_cell(FullDataEnum::PlayableLength, t, n).unwrap()) == n.playable_length,
        decimal_value(plain_cell(FullDataEnum::LongestStream, t, n).unwrap()) == n.longest_stream,
        decimal_value(plain_cell(FullDataEnum::Streams100, t, n).unwrap()) == n.streams100,
        decimal_value(plain_cell(FullDataEnum::AvgJumpsDistance, t, n).unwrap())
            == n.avg_jump_distance,
        decimal_value(plain_cell(FullDataEnum::AvgJumpsSpeed, t, n).unwrap()) == n.avg_jump_speed,
        t.beatmap_id@.len() >= 2 ==> plain_cell(FullDataEnum::OsuWebLink, t, n) == Some(
            "=HYPERLINK(\"https://osu.ppy.sh/b/"@ + t.beatmap_id@ + "\")"@,
        ),
        t.beatmap_id@.len() >= 2 ==> plain_cell(FullDataEnum::OsuDirect, t, n) == Some(
            "=HYPERLINK(\"osu://b/"@ + t.beatmap_id@ + "\")"@,
        ),
{
    law_decimal_reads_back(n.bpm as int);
    law_decimal_reads_back(n.playable_length as int);
    law_decimal_reads_back(n.longest_stream as int);
    law_decimal_reads_back(n.streams100 as int);
    law_decimal_reads_back(n.avg_jump_distance as int);
    law_decimal_reads_back(n.avg_jump_speed as int);
    lemma_encode_len(t.beatmap_id@);
    reveal_strlit("=HYPERLINK(\"");
    reveal_strlit("\")");
    reveal_strlit("https://osu.ppy.sh/b/");
    reveal_strlit("osu://b/");
    reveal_strlit("=HYPERLINK(\"https://osu.ppy.sh/b/");
    reveal_strlit("=HYPERLINK(\"osu://b/");
    assert("=HYPERLINK(\""@ + web_link_prefix() =~= "=HYPERLINK(\"https://osu.ppy.sh/b/"@);
    assert("=HYPERLINK(\""@ + direct_link_prefix() =~= "=HYPERLINK(\"osu://b/"@);
}

proof fn lemma_encode_len(s: Seq<char>)
    ensures
        encode_utf8(s).len() >= s.len(),
        s.len() == 1 ==> (encode_utf8(s).len() > 1 <==> s[0] as u32 > 0x7f),
    decreases s.len(),
{
    if s.len() > 0 {
        lemma_encode_len(s.drop_first());
        if s.len() == 1 {
            assert(s.drop_first() =~= Seq::<char>::empty());
        }
    }
}

/// Whether the UTF-8 encoding of `s` is longer than one byte.
fn byte_len_above_one(s: &str) -> (r: bool)
    ensures
        r == (encode_utf8(s@).len() > 1),
{
    let cs = crate::text::chars_of(s);
    proof {
        lemma_encode_len(s@);
    }
    if cs.len() >= 2 {
        true
    } else if cs.len() == 1 {
        (cs[0] as u32) > 0x7f
    } else {
        false
    }
}

fn hyperlink(prefix: &str, id: &String) -> (r: String)
    ensures
        r@ == hyperlink_cell(prefix@, id@),
{
    if byte_len_above_one(id.as_str()) {
        let mut out = String::new();
        out.append("=HYPERLINK(\"");
        out.append(prefix);
        out.append(id.as_str());
        out.append("\")");
        out
    } else {
        String::new()
    }
}

/// The cell of column `c` where it is text or a whole number; `None` for the columns that
/// hold decimal numbers.
pub fn render_plain_cell(c: FullDataEnum, t: &CellTexts, n: &CellNumbers) -> (r: Option<String>)
    ensures
        match r {
            Some(s) => plain_cell(c, *t, *n) == Some(s@),
            None => plain_cell(c, *t, *n) is None,
        },
{
    match c {
        FullDataEnum::Title => Some(t.title.clone()),
        FullDataEnum::DifName => Some(t.version.clone()),
        FullDataEnum::MapID => Some(t.beatmap_id.clone()),
        FullDataEnum::MapSetID => Some(t.beatmap_set_id.clone()),
        FullDataEnum::Creator => Some(t.creator.clone()),
        FullDataEnum::MD5 => Some(t.md5.clone()),
        FullDataEnum::BPM => Some(format_integer(n.bpm as i64)),
        FullDataEnum::PlayableLength => Some(format_integer(n.playable_length as i64)),
        FullDataEnum::LongestStream => Some(format_integer(n.longest_stream as i64)),
        FullDataEnum::Streams100 => Some(format_integer(n.streams100 as i64)),
        FullDataEnum::AvgJumpsDistance => Some(format_integer(n.avg_jump_distance as i64)),
        FullDataEnum::AvgJumpsSpeed => Some(format_integer(n.avg_jump_speed as i64)),
        FullDataEnum::OsuWebLink => Some(hyperlink("https://osu.ppy.sh/b/", &t.beatmap_id)),
        FullDataEnum::OsuDirect => Some(hyperlink("osu://b/", &t.beatmap_id)),
        _ => None,
    }
}

} // verus!
